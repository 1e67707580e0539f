//! TCP header codec: a checked read view over a borrowed buffer and a
//! write view over an owned buffer, plus the pseudo-header checksum.

use vstd::prelude::*;

use crate::err::NetError;
use crate::ip::IpAddr;
use crate::util;

verus! {

pub const SRC_PORT: usize = 0;

pub const DST_PORT: usize = 2;

pub const SEQ_NUM: usize = 4;

pub const ACK_NUM: usize = 8;

pub const DATA_OFF: usize = 12;

pub const FLAGS: usize = 13;

pub const WIN_SIZE: usize = 14;

pub const CHECKSUM: usize = 16;

pub const URGENT: usize = 18;

pub const HEADER_LEN: usize = 20;

pub const PROTOCOL_TCP: u8 = 6;

pub const FLG_FIN: u8 = 0x01;

pub const FLG_SYN: u8 = 0x02;

pub const FLG_RST: u8 = 0x04;

pub const FLG_PSH: u8 = 0x08;

pub const FLG_ACK: u8 = 0x10;

/// The FIN bit of a flags byte.
pub open spec fn has_fin(flags: u8) -> bool {
    flags % 2 == 1
}

/// The SYN bit of a flags byte.
pub open spec fn has_syn(flags: u8) -> bool {
    flags / 2 % 2 == 1
}

/// The RST bit of a flags byte.
pub open spec fn has_rst(flags: u8) -> bool {
    flags / 4 % 2 == 1
}

/// The PSH bit of a flags byte.
pub open spec fn has_psh(flags: u8) -> bool {
    flags / 8 % 2 == 1
}

/// The ACK bit of a flags byte.
pub open spec fn has_ack(flags: u8) -> bool {
    flags / 16 % 2 == 1
}

/// Test the FIN bit of a flags byte.
pub fn fin_set(flags: u8) -> (r: bool)
    ensures
        r == has_fin(flags),
{
    flags % 2 == 1
}

/// Test the SYN bit of a flags byte.
pub fn syn_set(flags: u8) -> (r: bool)
    ensures
        r == has_syn(flags),
{
    flags / 2 % 2 == 1
}

/// Test the RST bit of a flags byte.
pub fn rst_set(flags: u8) -> (r: bool)
    ensures
        r == has_rst(flags),
{
    flags / 4 % 2 == 1
}

/// Test the PSH bit of a flags byte.
pub fn psh_set(flags: u8) -> (r: bool)
    ensures
        r == has_psh(flags),
{
    flags / 8 % 2 == 1
}

/// Test the ACK bit of a flags byte.
pub fn ack_set(flags: u8) -> (r: bool)
    ensures
        r == has_ack(flags),
{
    flags / 16 % 2 == 1
}

/// The header length a TCP buffer declares: data offset times four.
pub open spec fn header_len_of(s: Seq<u8>) -> int {
    (s[DATA_OFF as int] / 16) as int * 4
}

/// A buffer that holds a well-formed TCP header: long enough for the
/// fixed header, with a data offset inside the buffer.
pub open spec fn tcp_buffer_ok(s: Seq<u8>) -> bool {
    &&& s.len() >= HEADER_LEN
    &&& HEADER_LEN <= header_len_of(s) <= s.len()
}

/// The 12-byte pseudo-header that binds a transport segment to its IP
/// endpoints for checksum purposes.
pub open spec fn pseudo_header_bytes(src: IpAddr, dst: IpAddr, protocol: u8, len: u16) -> Seq<u8> {
    util::be32_bytes(src.0) + util::be32_bytes(dst.0) + seq![0u8, protocol] + util::be16_bytes(len)
}

/// Build the pseudo-header followed by the segment itself, the buffer the
/// transport checksum is computed over.
pub fn pseudo_buffer(src: IpAddr, dst: IpAddr, protocol: u8, segment: &[u8]) -> (r: Vec<u8>)
    requires
        segment@.len() <= 0xffff,
    ensures
        r@ == pseudo_header_bytes(src, dst, protocol, segment@.len() as u16) + segment@,
{
    let mut buf: Vec<u8> = Vec::new();
    let s = src.0;
    let d = dst.0;
    buf.push((s / 0x1000000) as u8);
    buf.push((s / 0x10000 % 256) as u8);
    buf.push((s / 256 % 256) as u8);
    buf.push((s % 256) as u8);
    buf.push((d / 0x1000000) as u8);
    buf.push((d / 0x10000 % 256) as u8);
    buf.push((d / 256 % 256) as u8);
    buf.push((d % 256) as u8);
    buf.push(0);
    buf.push(protocol);
    let len = segment.len() as u16;
    buf.push((len / 256) as u8);
    buf.push((len % 256) as u8);
    buf.extend_from_slice(segment);
    proof {
        assert(buf@ =~= pseudo_header_bytes(src, dst, protocol, segment@.len() as u16)
            + segment@);
    }
    buf
}

/// The folded pseudo-header sum of a segment, before complementing.
pub open spec fn tcp_checksum_fold(src: IpAddr, dst: IpAddr, segment: Seq<u8>) -> int {
    0xffff - util::checksum_spec(
        pseudo_header_bytes(src, dst, PROTOCOL_TCP, segment.len() as u16) + segment,
    )
}

/// A checked read view of a TCP header over a borrowed buffer.
pub struct Packet<'a> {
    pub buffer: &'a [u8],
}

impl<'a> Packet<'a> {
    /// The bytes under the view.
    pub open spec fn view(self) -> Seq<u8> {
        self.buffer@
    }

    /// Check the buffer length and the declared data offset before
    /// handing out a view.
    pub fn new_checked(buffer: &'a [u8]) -> (r: Result<Self, NetError>)
        ensures
            match r {
                Ok(p) => p@ == buffer@ && tcp_buffer_ok(buffer@),
                Err(e) => {
                    &&& !tcp_buffer_ok(buffer@)
                    &&& (e == NetError::PacketTooShort && buffer@.len() < HEADER_LEN) || (e
                        == NetError::InvalidHeaderLen && buffer@.len() >= HEADER_LEN)
                },
            },
    {
        if buffer.len() < HEADER_LEN {
            return Err(NetError::PacketTooShort);
        }
        let packet = Self { buffer };
        let header_len = packet.header_len();
        if header_len < HEADER_LEN || header_len > buffer.len() {
            return Err(NetError::InvalidHeaderLen);
        }
        Ok(packet)
    }

    /// The declared header length in bytes.
    pub fn header_len(&self) -> (r: usize)
        requires
            self@.len() >= HEADER_LEN,
        ensures
            r == header_len_of(self@),
    {
        (self.buffer[DATA_OFF] / 16) as usize * 4
    }

    pub fn src_port(&self) -> (r: u16)
        requires
            self@.len() >= HEADER_LEN,
        ensures
            r == util::be16_at(self@, SRC_PORT as int),
    {
        util::read_be16(self.buffer, SRC_PORT)
    }

    pub fn dst_port(&self) -> (r: u16)
        requires
            self@.len() >= HEADER_LEN,
        ensures
            r == util::be16_at(self@, DST_PORT as int),
    {
        util::read_be16(self.buffer, DST_PORT)
    }

    pub fn seq_number(&self) -> (r: u32)
        requires
            self@.len() >= HEADER_LEN,
        ensures
            r == util::be32_at(self@, SEQ_NUM as int),
    {
        util::read_be32(self.buffer, SEQ_NUM)
    }

    pub fn ack_number(&self) -> (r: u32)
        requires
            self@.len() >= HEADER_LEN,
        ensures
            r == util::be32_at(self@, ACK_NUM as int),
    {
        util::read_be32(self.buffer, ACK_NUM)
    }

    pub fn flags(&self) -> (r: u8)
        requires
            self@.len() >= HEADER_LEN,
        ensures
            r == self@[FLAGS as int],
    {
        self.buffer[FLAGS]
    }

    pub fn window_len(&self) -> (r: u16)
        requires
            self@.len() >= HEADER_LEN,
        ensures
            r == util::be16_at(self@, WIN_SIZE as int),
    {
        util::read_be16(self.buffer, WIN_SIZE)
    }

    /// The bytes after the declared header.
    pub fn payload(&self) -> (r: &'a [u8])
        requires
            tcp_buffer_ok(self@),
        ensures
            r@ == self@.subrange(header_len_of(self@), self@.len() as int),
    {
        let header_len = self.header_len();
        vstd::slice::slice_subrange(self.buffer, header_len, self.buffer.len())
    }

    /// The segment verifies when its folded pseudo-header sum is all ones.
    pub fn verify_checksum(&self, src: IpAddr, dst: IpAddr) -> (r: bool)
        requires
            self@.len() >= HEADER_LEN,
            self@.len() <= 0xffff,
        ensures
            r == (tcp_checksum_fold(src, dst, self@) == 0xffff),
    {
        let buf = pseudo_buffer(src, dst, PROTOCOL_TCP, self.buffer);
        util::checksum(buf.as_slice()) == 0
    }
}

/// A write view of a TCP header over an owned buffer; the caller sizes the
/// buffer and takes it back with `into_bytes`.
pub struct PacketMut {
    pub buffer: Vec<u8>,
}

impl View for PacketMut {
    type V = Seq<u8>;

    open spec fn view(&self) -> Seq<u8> {
        self.buffer@
    }
}

impl PacketMut {
    pub fn new_unchecked(buffer: Vec<u8>) -> (r: Self)
        ensures
            r@ == buffer@,
    {
        Self { buffer }
    }

    /// Hand the underlying buffer back.
    pub fn into_bytes(self) -> (r: Vec<u8>)
        ensures
            r@ == self@,
    {
        self.buffer
    }

    pub fn set_src_port(&mut self, value: u16)
        requires
            old(self)@.len() >= HEADER_LEN,
        ensures
            final(self)@ == old(self)@.update(SRC_PORT as int, (value / 256) as u8).update(
                SRC_PORT + 1,
                (value % 256) as u8,
            ),
            util::be16_at(final(self)@, SRC_PORT as int) == value,
            final(self)@.len() == old(self)@.len(),
    {
        util::write_be16(&mut self.buffer, SRC_PORT, value);
    }

    pub fn set_dst_port(&mut self, value: u16)
        requires
            old(self)@.len() >= HEADER_LEN,
        ensures
            final(self)@ == old(self)@.update(DST_PORT as int, (value / 256) as u8).update(
                DST_PORT + 1,
                (value % 256) as u8,
            ),
            util::be16_at(final(self)@, DST_PORT as int) == value,
            final(self)@.len() == old(self)@.len(),
    {
        util::write_be16(&mut self.buffer, DST_PORT, value);
    }

    pub fn set_seq_number(&mut self, value: u32)
        requires
            old(self)@.len() >= HEADER_LEN,
        ensures
            final(self)@ == old(self)@.update(SEQ_NUM as int, (value / 0x1000000) as u8).update(
                SEQ_NUM + 1,
                ((value / 0x10000) % 256) as u8,
            ).update(SEQ_NUM + 2, ((value / 256) % 256) as u8).update(
                SEQ_NUM + 3,
                (value % 256) as u8,
            ),
            util::be32_at(final(self)@, SEQ_NUM as int) == value,
            final(self)@.len() == old(self)@.len(),
    {
        util::write_be32(&mut self.buffer, SEQ_NUM, value);
    }

    pub fn set_ack_number(&mut self, value: u32)
        requires
            old(self)@.len() >= HEADER_LEN,
        ensures
            final(self)@ == old(self)@.update(ACK_NUM as int, (value / 0x1000000) as u8).update(
                ACK_NUM + 1,
                ((value / 0x10000) % 256) as u8,
            ).update(ACK_NUM + 2, ((value / 256) % 256) as u8).update(
                ACK_NUM + 3,
                (value % 256) as u8,
            ),
            util::be32_at(final(self)@, ACK_NUM as int) == value,
            final(self)@.len() == old(self)@.len(),
    {
        util::write_be32(&mut self.buffer, ACK_NUM, value);
    }

    /// Store `header_len / 4` in the data-offset nibble.
    pub fn set_header_len(&mut self, header_len: usize)
        requires
            old(self)@.len() >= HEADER_LEN,
            header_len <= 60,
        ensures
            final(self)@ == old(self)@.update(DATA_OFF as int, ((header_len / 4) * 16) as u8),
            final(self)@.len() == old(self)@.len(),
            header_len % 4 == 0 ==> header_len_of(final(self)@) == header_len,
    {
        let nibble: u8 = (header_len / 4) as u8;
        self.buffer.set(DATA_OFF, nibble * 16);
        proof {
            vstd::arithmetic::div_mod::lemma_fundamental_div_mod(header_len as int, 4);
        }
    }

    pub fn set_flags(&mut self, flags: u8)
        requires
            old(self)@.len() >= HEADER_LEN,
        ensures
            final(self)@ == old(self)@.update(FLAGS as int, flags),
            final(self)@.len() == old(self)@.len(),
    {
        self.buffer.set(FLAGS, flags);
    }

    pub fn set_window_len(&mut self, value: u16)
        requires
            old(self)@.len() >= HEADER_LEN,
        ensures
            final(self)@ == old(self)@.update(WIN_SIZE as int, (value / 256) as u8).update(
                WIN_SIZE + 1,
                (value % 256) as u8,
            ),
            util::be16_at(final(self)@, WIN_SIZE as int) == value,
            final(self)@.len() == old(self)@.len(),
    {
        util::write_be16(&mut self.buffer, WIN_SIZE, value);
    }

    pub fn set_checksum(&mut self, value: u16)
        requires
            old(self)@.len() >= HEADER_LEN,
        ensures
            final(self)@ == old(self)@.update(CHECKSUM as int, (value / 256) as u8).update(
                CHECKSUM + 1,
                (value % 256) as u8,
            ),
            util::be16_at(final(self)@, CHECKSUM as int) == value,
            final(self)@.len() == old(self)@.len(),
    {
        util::write_be16(&mut self.buffer, CHECKSUM, value);
    }

    pub fn set_urg_ptr(&mut self, value: u16)
        requires
            old(self)@.len() >= HEADER_LEN,
        ensures
            final(self)@ == old(self)@.update(URGENT as int, (value / 256) as u8).update(
                URGENT + 1,
                (value % 256) as u8,
            ),
            util::be16_at(final(self)@, URGENT as int) == value,
            final(self)@.len() == old(self)@.len(),
    {
        util::write_be16(&mut self.buffer, URGENT, value);
    }

    /// Copy `payload` in after the fixed header.
    pub fn set_payload(&mut self, payload: &[u8])
        requires
            old(self)@.len() == HEADER_LEN + payload@.len(),
        ensures
            final(self)@.len() == old(self)@.len(),
            final(self)@.subrange(0, HEADER_LEN as int) == old(self)@.subrange(
                0,
                HEADER_LEN as int,
            ),
            forall|j: int| 0 <= j < HEADER_LEN ==> final(self)@[j] == old(self)@[j],
            final(self)@.subrange(HEADER_LEN as int, final(self)@.len() as int) == payload@,
    {
        let mut i: usize = 0;
        let n = payload.len();
        let total = self.buffer.len();
        while i < n
            invariant
                i <= n,
                n == payload@.len(),
                total == HEADER_LEN + n,
                self.buffer@.len() == old(self)@.len(),
                old(self)@.len() == HEADER_LEN + n,
                forall|j: int| 0 <= j < HEADER_LEN ==> self.buffer@[j] == old(self)@[j],
                forall|j: int| 0 <= j < i ==> self.buffer@[HEADER_LEN + j] == payload@[j],
            decreases n - i,
        {
            self.buffer.set(HEADER_LEN + i, payload[i]);
            i = i + 1;
        }
        proof {
            assert(self.buffer@.subrange(0, HEADER_LEN as int) =~= old(self)@.subrange(
                0,
                HEADER_LEN as int,
            ));
            assert(self.buffer@.subrange(HEADER_LEN as int, self.buffer@.len() as int)
                =~= payload@);
        }
    }

    /// Zero the checksum field, fold the pseudo-header sum over the whole
    /// segment, and store its one's complement.
    pub fn fill_checksum(&mut self, src: IpAddr, dst: IpAddr)
        requires
            old(self)@.len() >= HEADER_LEN,
            old(self)@.len() <= 0xffff,
        ensures
            final(self)@.len() == old(self)@.len(),
            ({
                let zeroed = old(self)@.update(CHECKSUM as int, 0u8).update(CHECKSUM + 1, 0u8);
                let c = util::checksum_spec(
                    pseudo_header_bytes(src, dst, PROTOCOL_TCP, zeroed.len() as u16) + zeroed,
                ) as u16;
                final(self)@ == zeroed.update(CHECKSUM as int, (c / 256) as u8).update(
                    CHECKSUM + 1,
                    (c % 256) as u8,
                )
            }),
    {
        self.set_checksum(0);
        let ghost zeroed = self.buffer@;
        let buf = pseudo_buffer(src, dst, PROTOCOL_TCP, self.buffer.as_slice());
        proof {
            util::lemma_ones_fold_bounds(buf@, 0, 0);
        }
        let c: u16 = util::checksum(buf.as_slice());
        self.set_checksum(c);
    }
}

} // verus!
