//! The per-connection TCP engine and the socket table that drives it.
//!
//! A socket holds the full RFC 9293 transmission control block.  Nothing
//! here performs I/O: segment emission queues `SendRequest`s on the
//! socket, and the caller drains them after releasing the socket table —
//! the two-phase egress discipline.  The current time is handed in as a
//! millisecond count.

use vstd::prelude::*;

use crate::err::NetError;
use crate::ip::IpAddr;
use crate::socket::{SocketHandle, SocketSet};
use crate::tcp::segment::{seq_between, seq_between_exec, seq_le, seq_le_exec, seq_lt, seq_lt_exec, SegMeta};
use crate::tcp::state::State;
use crate::tcp::wire;
use std::collections::VecDeque;

verus! {

/// Receive buffer capacity of a fresh socket, in bytes.
pub const RX_BUFFER_SIZE: usize = 8192;

/// Transmit buffer capacity of a fresh socket, in bytes.
pub const TX_BUFFER_SIZE: usize = 8192;

/// The fixed maximum segment size.
pub const DEFAULT_MSS: u16 = 1460;

/// Initial retransmission timeout, in milliseconds; it doubles per retry.
pub const DEFAULT_RTO_MS: u64 = 200;

/// A connection is aborted when a retransmit entry stays unacknowledged
/// this long.
pub const RETRANSMIT_DEADLINE_MS: u64 = 12_000;

/// How long a socket lingers in TIME-WAIT.
pub const TIMEWAIT_MS: u64 = 30_000;

/// Slots per protocol socket table.
pub const SOCKET_CAPACITY: usize = 16;

pub const EPHEMERAL_PORT_MIN: u16 = 49152;

pub const EPHEMERAL_PORT_MAX: u16 = 65535;

/// A pair of address and port; zero in either is a wildcard.
#[derive(Debug, Clone, Copy, PartialEq, Eq, Structural)]
pub struct IpEndpoint {
    pub addr: IpAddr,
    pub port: u16,
}

impl IpEndpoint {
    pub fn new(addr: IpAddr, port: u16) -> (r: Self)
        ensures
            r == (IpEndpoint { addr, port }),
    {
        IpEndpoint { addr, port }
    }

    /// The all-wildcard endpoint.
    pub fn unspecified() -> (r: Self)
        ensures
            r.addr.0 == 0 && r.port == 0,
    {
        IpEndpoint { addr: IpAddr(0), port: 0 }
    }

    /// Whether both halves are wildcards.
    pub fn is_unspecified(&self) -> (r: bool)
        ensures
            r == (self.addr.0 == 0 && self.port == 0),
    {
        self.addr.0 == 0 && self.port == 0
    }
}

/// A segment that may have to be sent again: when it was first and last
/// sent, the timeout that doubles per retry, and the bytes to resend.
pub struct RetransmitEntry {
    pub first_at: u64,
    pub last_at: u64,
    pub rto: u64,
    pub seq: u32,
    pub flags: u8,
    pub payload: Vec<u8>,
}

/// A fully-determined outbound segment, queued on the socket and emitted
/// by the caller after the socket table is released.
pub struct SendRequest {
    pub seq: u32,
    pub ack: u32,
    pub flags: u8,
    pub wnd: u16,
    pub payload: Vec<u8>,
    pub local: IpEndpoint,
    pub foreign: IpEndpoint,
}

/// The full transmission control block of one connection.
pub struct Socket {
    pub state: State,
    pub local: IpEndpoint,
    pub foreign: IpEndpoint,

    pub snd_nxt: u32,
    pub snd_una: u32,
    pub snd_wnd: u16,
    pub snd_wl1: u32,
    pub snd_wl2: u32,

    pub rcv_nxt: u32,
    pub rcv_wnd: u16,

    pub iss: u32,
    pub irs: u32,

    pub mss: u16,

    pub rx_buf: VecDeque<u8>,
    pub rx_capacity: usize,
    pub tx_buf: VecDeque<u8>,
    pub tx_capacity: usize,

    pub retransmit: Vec<RetransmitEntry>,
    pub pending: Vec<SendRequest>,

    pub timewait_deadline: Option<u64>,

    pub parent: Option<usize>,
    pub backlog: VecDeque<usize>,
    pub accept_ready: bool,
}

/// The states in which the socket tracks a peer's sequence space.
pub open spec fn in_sync_family(s: State) -> bool {
    s != State::Closed && s != State::Listen
}

impl Socket {
    /// Well-formedness: buffers fit their capacities, capacities fit the
    /// 16-bit window field, and — whenever the socket is past LISTEN —
    /// the advertised receive window is exactly the free receive space.
    pub open spec fn wf(self) -> bool {
        &&& 0 < self.rx_capacity <= 0xffff
        &&& 0 < self.tx_capacity <= 0xffff
        &&& self.mss >= 1
        &&& self.rx_buf@.len() <= self.rx_capacity
        &&& self.tx_buf@.len() <= self.tx_capacity
        &&& (in_sync_family(self.state) ==> self.rcv_wnd == self.rx_capacity - self.rx_buf@.len())
    }

    /// A fresh closed socket with the given buffer capacities.
    pub fn new(rx_capacity: usize, tx_capacity: usize) -> (r: Self)
        requires
            0 < rx_capacity <= 0xffff,
            0 < tx_capacity <= 0xffff,
        ensures
            r.wf(),
            r.state == State::Closed,
            r.local.addr.0 == 0 && r.local.port == 0,
            r.foreign.addr.0 == 0 && r.foreign.port == 0,
            r.rx_buf@.len() == 0,
            r.tx_buf@.len() == 0,
            r.pending@.len() == 0,
            r.retransmit@.len() == 0,
            r.backlog@.len() == 0,
            r.rx_capacity == rx_capacity,
            r.tx_capacity == tx_capacity,
            r.parent is None,
            r.accept_ready == false,
            r.snd_nxt == 0 && r.snd_una == 0 && r.snd_wnd == 0,
            r.rcv_nxt == 0 && r.rcv_wnd == 0,
            r.iss == 0 && r.irs == 0,
            r.timewait_deadline is None,
            r.mss == DEFAULT_MSS,
    {
        Socket {
            state: State::Closed,
            local: IpEndpoint::unspecified(),
            foreign: IpEndpoint::unspecified(),
            snd_nxt: 0,
            snd_una: 0,
            snd_wnd: 0,
            snd_wl1: 0,
            snd_wl2: 0,
            rcv_nxt: 0,
            rcv_wnd: 0,
            iss: 0,
            irs: 0,
            mss: DEFAULT_MSS,
            rx_buf: VecDeque::new(),
            rx_capacity,
            tx_buf: VecDeque::new(),
            tx_capacity,
            retransmit: Vec::new(),
            pending: Vec::new(),
            timewait_deadline: None,
            parent: None,
            backlog: VecDeque::new(),
            accept_ready: false,
        }
    }

    pub fn state(&self) -> (r: State)
        ensures
            r == self.state,
    {
        self.state
    }

    pub fn local_endpoint(&self) -> (r: IpEndpoint)
        ensures
            r == self.local,
    {
        self.local
    }

    pub fn remote_endpoint(&self) -> (r: IpEndpoint)
        ensures
            r == self.foreign,
    {
        self.foreign
    }

    pub fn is_listening(&self) -> (r: bool)
        ensures
            r == (self.state == State::Listen),
    {
        self.state == State::Listen
    }

    /// Whether a fully-established child connection waits to be accepted.
    pub fn has_pending_connection(&self) -> (r: bool)
        ensures
            r == (self.backlog@.len() > 0),
    {
        self.backlog.len() > 0
    }

    /// The states in which `recv_slice` is allowed.
    pub open spec fn can_recv_spec(self) -> bool {
        self.state == State::Established || self.state == State::FinWait1 || self.state
            == State::FinWait2 || self.state == State::CloseWait
    }

    fn can_recv(&self) -> (r: bool)
        ensures
            r == self.can_recv_spec(),
    {
        match self.state {
            State::Established | State::FinWait1 | State::FinWait2 | State::CloseWait => true,
            _ => false,
        }
    }

    /// The states in which `send_slice` is allowed.
    pub open spec fn can_send_spec(self) -> bool {
        self.state == State::Established || self.state == State::CloseWait
    }

    fn can_send(&self) -> (r: bool)
        ensures
            r == self.can_send_spec(),
    {
        match self.state {
            State::Established | State::CloseWait => true,
            _ => false,
        }
    }

    /// Whether received bytes are ready to be read.
    pub fn may_recv(&self) -> (r: bool)
        ensures
            r == (self.can_recv_spec() && self.rx_buf@.len() > 0),
    {
        self.can_recv() && self.rx_buf.len() > 0
    }
}

/// Everything of a socket except its two outbound queues.
pub open spec fn same_but_queues(a: Socket, b: Socket) -> bool {
    &&& a.state == b.state
    &&& a.local == b.local
    &&& a.foreign == b.foreign
    &&& a.snd_nxt == b.snd_nxt
    &&& a.snd_una == b.snd_una
    &&& a.snd_wnd == b.snd_wnd
    &&& a.snd_wl1 == b.snd_wl1
    &&& a.snd_wl2 == b.snd_wl2
    &&& a.rcv_nxt == b.rcv_nxt
    &&& a.rcv_wnd == b.rcv_wnd
    &&& a.iss == b.iss
    &&& a.irs == b.irs
    &&& a.mss == b.mss
    &&& a.rx_buf@ == b.rx_buf@
    &&& a.rx_capacity == b.rx_capacity
    &&& a.tx_buf@ == b.tx_buf@
    &&& a.tx_capacity == b.tx_capacity
    &&& a.timewait_deadline == b.timewait_deadline
    &&& a.parent == b.parent
    &&& a.backlog@ == b.backlog@
    &&& a.accept_ready == b.accept_ready
}

/// Two sockets that differ at most in their accept backlog.
pub open spec fn same_but_backlog(a: Socket, b: Socket) -> bool {
    &&& a.state == b.state
    &&& a.local == b.local
    &&& a.foreign == b.foreign
    &&& a.snd_nxt == b.snd_nxt
    &&& a.snd_una == b.snd_una
    &&& a.snd_wnd == b.snd_wnd
    &&& a.snd_wl1 == b.snd_wl1
    &&& a.snd_wl2 == b.snd_wl2
    &&& a.rcv_nxt == b.rcv_nxt
    &&& a.rcv_wnd == b.rcv_wnd
    &&& a.iss == b.iss
    &&& a.irs == b.irs
    &&& a.mss == b.mss
    &&& a.rx_buf@ == b.rx_buf@
    &&& a.rx_capacity == b.rx_capacity
    &&& a.tx_buf@ == b.tx_buf@
    &&& a.tx_capacity == b.tx_capacity
    &&& a.timewait_deadline == b.timewait_deadline
    &&& a.parent == b.parent
    &&& a.accept_ready == b.accept_ready
    &&& a.pending@ == b.pending@
    &&& a.retransmit@ == b.retransmit@
}

/// Two sockets that differ at most in their parent link.
pub open spec fn same_but_parent(a: Socket, b: Socket) -> bool {
    &&& a.state == b.state
    &&& a.local == b.local
    &&& a.foreign == b.foreign
    &&& a.snd_nxt == b.snd_nxt
    &&& a.snd_una == b.snd_una
    &&& a.snd_wnd == b.snd_wnd
    &&& a.snd_wl1 == b.snd_wl1
    &&& a.snd_wl2 == b.snd_wl2
    &&& a.rcv_nxt == b.rcv_nxt
    &&& a.rcv_wnd == b.rcv_wnd
    &&& a.iss == b.iss
    &&& a.irs == b.irs
    &&& a.mss == b.mss
    &&& a.rx_buf@ == b.rx_buf@
    &&& a.rx_capacity == b.rx_capacity
    &&& a.tx_buf@ == b.tx_buf@
    &&& a.tx_capacity == b.tx_capacity
    &&& a.timewait_deadline == b.timewait_deadline
    &&& a.backlog@ == b.backlog@
    &&& a.accept_ready == b.accept_ready
    &&& a.pending@ == b.pending@
    &&& a.retransmit@ == b.retransmit@
}

/// A socket left entirely as it was.
pub open spec fn unchanged(a: Socket, b: Socket) -> bool {
    &&& same_but_queues(a, b)
    &&& a.pending@ == b.pending@
    &&& a.retransmit@ == b.retransmit@
}

/// The request `egress` queues for a socket `s`: SYN segments carry the
/// initial send sequence, everything else the next one (the emitted-
/// segment sequence law).
pub open spec fn is_egress_req(s: Socket, flags: u8, payload: Seq<u8>, r: SendRequest) -> bool {
    &&& r.seq == if wire::has_syn(flags) {
        s.iss
    } else {
        s.snd_nxt
    }
    &&& r.ack == s.rcv_nxt
    &&& r.flags == flags
    &&& r.wnd == s.rcv_wnd
    &&& r.payload@ == payload
    &&& r.local == s.local
    &&& r.foreign == s.foreign
}

/// Whether `egress` also arms the retransmit timer for a segment: it does
/// for anything that occupies sequence space.
pub open spec fn needs_retransmit(flags: u8, payload: Seq<u8>) -> bool {
    wire::has_syn(flags) || wire::has_fin(flags) || payload.len() > 0
}

impl Socket {
    /// Queue an outbound segment: a SYN carries `iss`, anything else
    /// `snd_nxt`; SYN, FIN and data are also entered into the retransmit
    /// queue with the initial timeout.
    pub fn egress(&mut self, flags: u8, payload: &[u8], now_ms: u64) -> (r: Result<(), NetError>)
        requires
            old(self).wf(),
        ensures
            final(self).wf(),
            r is Ok,
            same_but_queues(*old(self), *final(self)),
            final(self).pending@.len() == old(self).pending@.len() + 1,
            final(self).pending@.drop_last() == old(self).pending@,
            is_egress_req(*old(self), flags, payload@, final(self).pending@.last()),
            needs_retransmit(flags, payload@) ==> {
                &&& final(self).retransmit@.len() == old(self).retransmit@.len() + 1
                &&& final(self).retransmit@.drop_last() == old(self).retransmit@
                &&& final(self).retransmit@.last().first_at == now_ms
                &&& final(self).retransmit@.last().last_at == now_ms
                &&& final(self).retransmit@.last().rto == DEFAULT_RTO_MS
                &&& final(self).retransmit@.last().seq == (if wire::has_syn(flags) {
                    old(self).iss
                } else {
                    old(self).snd_nxt
                })
                &&& final(self).retransmit@.last().flags == flags
                &&& final(self).retransmit@.last().payload@ == payload@
            },
            !needs_retransmit(flags, payload@) ==> final(self).retransmit@ == old(self).retransmit@,
    {
        let seq: u32 = if flags / 2 % 2 == 1 {
            self.iss
        } else {
            self.snd_nxt
        };
        if flags / 2 % 2 == 1 || flags % 2 == 1 || payload.len() > 0 {
            self.retransmit.push(
                RetransmitEntry {
                    first_at: now_ms,
                    last_at: now_ms,
                    rto: DEFAULT_RTO_MS,
                    seq,
                    flags,
                    payload: vstd::slice::slice_to_vec(payload),
                },
            );
        }
        self.pending.push(
            SendRequest {
                seq,
                ack: self.rcv_nxt,
                flags,
                wnd: self.rcv_wnd,
                payload: vstd::slice::slice_to_vec(payload),
                local: self.local,
                foreign: self.foreign,
            },
        );
        Ok(())
    }

    /// Drop retransmit entries that the peer has fully acknowledged:
    /// pop from the front while the entry's sequence is before `snd_una`
    /// in sequence space.  Exactly the acknowledged prefix leaves.
    pub fn cleanup_retransmit(&mut self)
        requires
            old(self).wf(),
        ensures
            final(self).wf(),
            same_but_queues(*old(self), *final(self)),
            final(self).pending@ == old(self).pending@,
            exists|k: int|
                {
                    &&& 0 <= k <= old(self).retransmit@.len()
                    &&& final(self).retransmit@ == old(self).retransmit@.skip(k)
                    &&& forall|j: int|
                        0 <= j < k ==> seq_lt(
                            (#[trigger] old(self).retransmit@[j]).seq,
                            old(self).snd_una,
                        )
                    &&& (k < old(self).retransmit@.len() ==> !seq_lt(
                        old(self).retransmit@[k].seq,
                        old(self).snd_una,
                    ))
                },
    {
        proof {
            assert(self.retransmit@ =~= old(self).retransmit@.skip(0));
        }
        loop
            invariant
                self.wf(),
                same_but_queues(*old(self), *self),
                self.pending@ == old(self).pending@,
                exists|k: int|
                    {
                        &&& 0 <= k <= old(self).retransmit@.len()
                        &&& self.retransmit@ == old(self).retransmit@.skip(k)
                        &&& forall|j: int|
                            0 <= j < k ==> seq_lt(
                                (#[trigger] old(self).retransmit@[j]).seq,
                                old(self).snd_una,
                            )
                    },
            ensures
                self.wf(),
                same_but_queues(*old(self), *self),
                self.pending@ == old(self).pending@,
                exists|k: int|
                    {
                        &&& 0 <= k <= old(self).retransmit@.len()
                        &&& self.retransmit@ == old(self).retransmit@.skip(k)
                        &&& forall|j: int|
                            0 <= j < k ==> seq_lt(
                                (#[trigger] old(self).retransmit@[j]).seq,
                                old(self).snd_una,
                            )
                        &&& (k < old(self).retransmit@.len() ==> !seq_lt(
                            old(self).retransmit@[k].seq,
                            old(self).snd_una,
                        ))
                    },
            decreases self.retransmit@.len(),
        {
            if self.retransmit.len() == 0 {
                proof {
                    let k0 = choose|k: int|
                        {
                            &&& 0 <= k <= old(self).retransmit@.len()
                            &&& self.retransmit@ == old(self).retransmit@.skip(k)
                            &&& forall|j: int|
                                0 <= j < k ==> seq_lt(
                                    (#[trigger] old(self).retransmit@[j]).seq,
                                    old(self).snd_una,
                                )
                        };
                    assert(k0 == old(self).retransmit@.len());
                }
                break;
            }
            if !seq_lt_exec(self.retransmit[0].seq, self.snd_una) {
                proof {
                    let k0 = choose|k: int|
                        {
                            &&& 0 <= k <= old(self).retransmit@.len()
                            &&& self.retransmit@ == old(self).retransmit@.skip(k)
                            &&& forall|j: int|
                                0 <= j < k ==> seq_lt(
                                    (#[trigger] old(self).retransmit@[j]).seq,
                                    old(self).snd_una,
                                )
                        };
                    assert(old(self).retransmit@[k0] == self.retransmit@[0]);
                }
                break;
            }
            let ghost pre = self.retransmit@;
            self.retransmit.remove(0);
            proof {
                assert(self.retransmit@ == pre.skip(1));
                let k0 = choose|k: int|
                    {
                        &&& 0 <= k <= old(self).retransmit@.len()
                        &&& pre == old(self).retransmit@.skip(k)
                        &&& forall|j: int|
                            0 <= j < k ==> seq_lt(
                                (#[trigger] old(self).retransmit@[j]).seq,
                                old(self).snd_una,
                            )
                    };
                assert(old(self).retransmit@[k0] == pre[0]);
                assert(pre.skip(1) =~= old(self).retransmit@.skip(k0 + 1));
            }
        }
    }

    /// Open a passive socket: CLOSED becomes LISTEN on `local`;
    /// `SocketAlreadyOpen` in any other state.
    pub fn listen(&mut self, local: IpEndpoint) -> (r: Result<(), NetError>)
        requires
            old(self).wf(),
        ensures
            final(self).wf(),
            match r {
                Ok(()) => {
                    &&& old(self).state == State::Closed
                    &&& final(self).state == State::Listen
                    &&& final(self).local == local
                    &&& unchanged(
                        Socket { state: old(self).state, local: old(self).local, ..*final(self) },
                        *old(self),
                    )
                },
                Err(e) => {
                    &&& e == NetError::SocketAlreadyOpen
                    &&& old(self).state != State::Closed
                    &&& unchanged(*old(self), *final(self))
                },
            },
    {
        if !matches!(self.state, State::Closed) {
            return Err(NetError::SocketAlreadyOpen);
        }
        self.local = local;
        self.state = State::Listen;
        Ok(())
    }

    /// Open an active connection: CLOSED becomes SYN-SENT, seeded from
    /// `iss(local.port)`, and a SYN is queued.  The caller resolves
    /// wildcards in `local` first.  `SocketAlreadyOpen` outside CLOSED.
    pub fn connect(&mut self, local: IpEndpoint, remote: IpEndpoint, now_ms: u64) -> (r: Result<
        (),
        NetError,
    >)
        requires
            old(self).wf(),
            local.addr.0 != 0,
            local.port != 0,
        ensures
            final(self).wf(),
            match r {
                Ok(()) => {
                    &&& old(self).state == State::Closed
                    &&& final(self).state == State::SynSent
                    &&& final(self).local == local
                    &&& final(self).foreign == remote
                    &&& final(self).iss == initial_iss_spec(local.port)
                    &&& final(self).snd_una == final(self).iss
                    &&& final(self).snd_nxt == vstd::wrapping::u32_specs::wrapping_add(final(self).iss, 1)
                    &&& final(self).rcv_wnd == final(self).rx_capacity
                    &&& final(self).rx_buf@.len() == 0
                    &&& final(self).tx_buf@.len() == 0
                    &&& final(self).pending@.len() == old(self).pending@.len() + 1
                    &&& final(self).pending@.last().flags == wire::FLG_SYN
                    &&& final(self).pending@.last().seq == final(self).iss
                },
                Err(e) => {
                    &&& e == NetError::SocketAlreadyOpen
                    &&& old(self).state != State::Closed
                    &&& unchanged(*old(self), *final(self))
                },
            },
    {
        if !matches!(self.state, State::Closed) {
            return Err(NetError::SocketAlreadyOpen);
        }
        self.local = local;
        self.foreign = remote;
        self.rx_buf.clear();
        self.tx_buf.clear();
        self.rcv_wnd = self.rx_capacity as u16;
        self.iss = initial_iss(local.port);
        self.snd_una = self.iss;
        self.snd_nxt = self.iss.wrapping_add(1);
        self.state = State::SynSent;
        let _ = self.egress(wire::FLG_SYN, &[], now_ms);
        Ok(())
    }

    /// Append up to the free transmit space and flush; `SocketNotOpen`
    /// outside ESTABLISHED and CLOSE-WAIT, `BufferFull` when nothing fits.
    pub fn send_slice(&mut self, data: &[u8], now_ms: u64) -> (r: Result<usize, NetError>)
        requires
            old(self).wf(),
        ensures
            final(self).wf(),
            match r {
                Ok(n) => {
                    &&& old(self).can_send_spec()
                    &&& n == vstd::math::min(
                        data@.len() as int,
                        old(self).tx_capacity - old(self).tx_buf@.len(),
                    )
                    &&& n > 0
                    // what was flushed plus what stays buffered is the
                    // old buffer followed by the accepted bytes
                    &&& flatten_payloads(
                        final(self).pending@.skip(old(self).pending@.len() as int),
                    ) + final(self).tx_buf@ == old(self).tx_buf@ + data@.take(n as int)
                    &&& old(self).pending@.is_prefix_of(final(self).pending@)
                },
                Err(e) => {
                    &&& (e == NetError::SocketNotOpen && !old(self).can_send_spec() && unchanged(
                        *old(self),
                        *final(self),
                    )) || (e == NetError::BufferFull && old(self).can_send_spec() && old(self).tx_buf@.len() == old(self).tx_capacity && data@.len() > 0 && unchanged(
                        *old(self),
                        *final(self),
                    )) || (e == NetError::BufferFull && old(self).can_send_spec()
                        && data@.len() == 0 && unchanged(*old(self), *final(self)))
                },
            },
    {
        if !self.can_send() {
            return Err(NetError::SocketNotOpen);
        }
        let available = self.tx_capacity - self.tx_buf.len();
        let to_write = if data.len() < available {
            data.len()
        } else {
            available
        };
        if to_write == 0 {
            return Err(NetError::BufferFull);
        }
        let mut i: usize = 0;
        while i < to_write
            invariant
                i <= to_write,
                to_write <= data@.len(),
                self.tx_buf@.len() == old(self).tx_buf@.len() + i,
                self.tx_buf@ == old(self).tx_buf@ + data@.take(i as int),
                old(self).tx_buf@.len() + to_write <= self.tx_capacity,
                same_but_queues_except_tx(*old(self), *self),
                self.pending@ == old(self).pending@,
                self.retransmit@ == old(self).retransmit@,
                self.wf(),
            decreases to_write - i,
        {
            self.tx_buf.push_back(data[i]);
            proof {
                assert(self.tx_buf@ =~= old(self).tx_buf@ + data@.take(i + 1));
            }
            i = i + 1;
        }
        let ghost mid_tx = self.tx_buf@;
        let ghost p0 = self.pending@.len() as int;
        self.flush_tx(now_ms);
        proof {
            assert(mid_tx =~= old(self).tx_buf@ + data@.take(to_write as int));
            assert(flatten_payloads(self.pending@.skip(p0)) + self.tx_buf@ =~= mid_tx);
        }
        Ok(to_write)
    }

    /// Drain received bytes into `buf` and re-advertise the window;
    /// `SocketNotOpen` outside the receiving states.
    pub fn recv_slice(&mut self, buf: &mut Vec<u8>) -> (r: Result<usize, NetError>)
        requires
            old(self).wf(),
        ensures
            final(self).wf(),
            match r {
                Ok(n) => {
                    &&& old(self).can_recv_spec()
                    &&& n == vstd::math::min(old(buf)@.len() as int, old(self).rx_buf@.len() as int)
                    &&& final(buf)@.len() == old(buf)@.len()
                    &&& final(buf)@.subrange(0, n as int) == old(self).rx_buf@.take(n as int)
                    &&& final(self).rx_buf@ == old(self).rx_buf@.skip(n as int)
                    &&& final(self).rcv_wnd == final(self).rx_capacity - final(self).rx_buf@.len()
                },
                Err(e) => {
                    &&& e == NetError::SocketNotOpen
                    &&& !old(self).can_recv_spec()
                    &&& unchanged(*old(self), *final(self))
                    &&& final(buf)@ == old(buf)@
                },
            },
    {
        if !self.can_recv() {
            return Err(NetError::SocketNotOpen);
        }
        let to_read = if buf.len() < self.rx_buf.len() {
            buf.len()
        } else {
            self.rx_buf.len()
        };
        let ghost rx0 = self.rx_buf@;
        let mut i: usize = 0;
        while i < to_read
            invariant
                i <= to_read,
                to_read <= old(buf)@.len(),
                to_read <= rx0.len(),
                buf@.len() == old(buf)@.len(),
                self.rx_buf@ == rx0.skip(i as int),
                forall|j: int| 0 <= j < i ==> buf@[j] == rx0[j],
                same_but_queues_except_rx(*old(self), *self),
                self.pending@ == old(self).pending@,
                self.retransmit@ == old(self).retransmit@,
                old(self).rx_buf@ == rx0,
            decreases to_read - i,
        {
            let b = self.rx_buf.pop_front();
            match b {
                Some(x) => {
                    buf.set(i, x);
                },
                None => {
                    // unreachable: the loop bound keeps bytes available
                },
            }
            proof {
                assert(self.rx_buf@ =~= rx0.skip(i + 1));
            }
            i = i + 1;
        }
        self.rcv_wnd = (self.rx_capacity - self.rx_buf.len()) as u16;
        proof {
            assert(buf@.subrange(0, to_read as int) =~= rx0.take(to_read as int));
        }
        Ok(to_read)
    }

    /// Close the connection: LISTEN and SYN-SENT drop to CLOSED;
    /// SYN-RECEIVED and ESTABLISHED queue FIN+ACK and move to FIN-WAIT-1;
    /// CLOSE-WAIT queues FIN+ACK and moves to LAST-ACK.
    pub fn close(&mut self, now_ms: u64)
        requires
            old(self).wf(),
        ensures
            final(self).wf(),
            old(self).state == State::Closed ==> unchanged(*old(self), *final(self)),
            (old(self).state == State::Listen || old(self).state == State::SynSent) ==> {
                &&& final(self).state == State::Closed
                &&& final(self).pending@ == old(self).pending@
            },
            (old(self).state == State::SynReceived || old(self).state == State::Established) ==> {
                &&& final(self).state == State::FinWait1
                &&& final(self).snd_nxt == vstd::wrapping::u32_specs::wrapping_add(old(self).snd_nxt, 1)
                &&& final(self).pending@.len() == old(self).pending@.len() + 1
                &&& is_egress_req(
                    *old(self),
                    (wire::FLG_ACK + wire::FLG_FIN) as u8,
                    Seq::<u8>::empty(),
                    final(self).pending@.last(),
                )
            },
            old(self).state == State::CloseWait ==> {
                &&& final(self).state == State::LastAck
                &&& final(self).snd_nxt == vstd::wrapping::u32_specs::wrapping_add(old(self).snd_nxt, 1)
                &&& final(self).pending@.len() == old(self).pending@.len() + 1
                &&& is_egress_req(
                    *old(self),
                    (wire::FLG_ACK + wire::FLG_FIN) as u8,
                    Seq::<u8>::empty(),
                    final(self).pending@.last(),
                )
            },
            (old(self).state == State::FinWait1 || old(self).state == State::FinWait2 || old(self).state == State::Closing || old(self).state == State::TimeWait || old(self).state
                == State::LastAck) ==> unchanged(*old(self), *final(self)),
    {
        match self.state {
            State::Closed => {},
            State::Listen | State::SynSent => {
                self.state = State::Closed;
            },
            State::SynReceived | State::Established => {
                let empty: &[u8] = &[];
                let _ = self.egress(wire::FLG_ACK + wire::FLG_FIN, empty, now_ms);
                proof {
                    assert(empty@ =~= Seq::<u8>::empty());
                }
                self.snd_nxt = self.snd_nxt.wrapping_add(1);
                self.state = State::FinWait1;
            },
            State::CloseWait => {
                let empty: &[u8] = &[];
                let _ = self.egress(wire::FLG_ACK + wire::FLG_FIN, empty, now_ms);
                proof {
                    assert(empty@ =~= Seq::<u8>::empty());
                }
                self.snd_nxt = self.snd_nxt.wrapping_add(1);
                self.state = State::LastAck;
            },
            _ => {},
        }
    }
}

/// Everything of a socket except its queues and transmit buffer.
pub open spec fn same_but_queues_except_tx(a: Socket, b: Socket) -> bool {
    &&& a.state == b.state
    &&& a.local == b.local
    &&& a.foreign == b.foreign
    &&& a.snd_nxt == b.snd_nxt
    &&& a.snd_una == b.snd_una
    &&& a.snd_wnd == b.snd_wnd
    &&& a.snd_wl1 == b.snd_wl1
    &&& a.snd_wl2 == b.snd_wl2
    &&& a.rcv_nxt == b.rcv_nxt
    &&& a.rcv_wnd == b.rcv_wnd
    &&& a.iss == b.iss
    &&& a.irs == b.irs
    &&& a.mss == b.mss
    &&& a.rx_buf@ == b.rx_buf@
    &&& a.rx_capacity == b.rx_capacity
    &&& a.tx_capacity == b.tx_capacity
    &&& a.timewait_deadline == b.timewait_deadline
    &&& a.parent == b.parent
    &&& a.backlog@ == b.backlog@
    &&& a.accept_ready == b.accept_ready
}

/// Everything of a socket except its queues, receive buffer and window.
pub open spec fn same_but_queues_except_rx(a: Socket, b: Socket) -> bool {
    &&& a.state == b.state
    &&& a.local == b.local
    &&& a.foreign == b.foreign
    &&& a.snd_nxt == b.snd_nxt
    &&& a.snd_una == b.snd_una
    &&& a.snd_wnd == b.snd_wnd
    &&& a.snd_wl1 == b.snd_wl1
    &&& a.snd_wl2 == b.snd_wl2
    &&& a.rcv_nxt == b.rcv_nxt
    &&& a.iss == b.iss
    &&& a.irs == b.irs
    &&& a.mss == b.mss
    &&& a.rx_capacity == b.rx_capacity
    &&& a.tx_buf@ == b.tx_buf@
    &&& a.tx_capacity == b.tx_capacity
    &&& a.timewait_deadline == b.timewait_deadline
    &&& a.parent == b.parent
    &&& a.backlog@ == b.backlog@
    &&& a.accept_ready == b.accept_ready
}

/// The deterministic initial send sequence: `port * 1000 + 12345`,
/// truncated to 32 bits.
pub open spec fn initial_iss_spec(port: u16) -> u32 {
    vstd::wrapping::u32_specs::wrapping_add(
        vstd::wrapping::u32_specs::wrapping_mul(port as u32, 1000),
        12345,
    )
}

/// The deterministic initial send sequence for a local port.
pub fn initial_iss(port: u16) -> (r: u32)
    ensures
        r == initial_iss_spec(port),
{
    (port as u32).wrapping_mul(1000).wrapping_add(12345)
}

/// Whether a retransmit entry's timeout has elapsed since it was last
/// sent.
pub open spec fn entry_due(e: RetransmitEntry, now: int) -> bool {
    (if now >= e.last_at {
        now - e.last_at
    } else {
        0
    }) >= e.rto
}

/// How many of the first `upto` retransmit entries are due at `now`.
pub open spec fn count_due(s: Seq<RetransmitEntry>, now: int, upto: int) -> int
    decreases upto,
{
    if upto <= 0 {
        0
    } else {
        count_due(s, now, upto - 1) + (if entry_due(s[upto - 1], now) {
            1int
        } else {
            0
        })
    }
}

/// The due count never shrinks as the prefix grows, and a due entry
/// strictly raises it.
pub proof fn lemma_count_due_mono(s: Seq<RetransmitEntry>, now: int, a: int, b: int)
    requires
        0 <= a <= b,
    ensures
        count_due(s, now, a) <= count_due(s, now, b),
        (a < b && entry_due(s[a], now)) ==> count_due(s, now, a) + 1 <= count_due(s, now, b),
    decreases b - a,
{
    if a < b {
        lemma_count_due_mono(s, now, a + 1, b);
    }
}

/// One timer round's effect on a retransmit queue when no entry has hit
/// the abort deadline: every due entry moves its retry time to `now` and
/// doubles its timeout; nothing else about the entries changes.
pub open spec fn retransmit_updated(a: Seq<RetransmitEntry>, b: Seq<RetransmitEntry>, now: int) -> bool {
    &&& b.len() == a.len()
    &&& forall|j: int|
        0 <= j < a.len() ==> {
            &&& (#[trigger] b[j]).seq == a[j].seq
            &&& b[j].flags == a[j].flags
            &&& b[j].payload@ == a[j].payload@
            &&& b[j].first_at == a[j].first_at
            &&& b[j].last_at == (if entry_due(a[j], now) {
                now as u64
            } else {
                a[j].last_at
            })
            &&& b[j].rto == (if entry_due(a[j], now) {
                (if a[j].rto > u64::MAX / 2 {
                    u64::MAX
                } else {
                    (a[j].rto * 2) as u64
                })
            } else {
                a[j].rto
            })
        }
}

/// The sequence span already sent but not yet acknowledged.
pub open spec fn in_flight(s: Socket) -> int {
    vstd::wrapping::u32_specs::wrapping_sub(s.snd_nxt, s.snd_una) as int
}

/// How many buffered bytes a flush may send: what the peer's window
/// still admits, capped by what is buffered.
pub open spec fn send_budget(s: Socket) -> int {
    vstd::math::min(
        s.tx_buf@.len() as int,
        vstd::math::max(0, s.snd_wnd - in_flight(s)),
    )
}

/// The payloads of a run of queued segments, concatenated in order.
pub open spec fn flatten_payloads(s: Seq<SendRequest>) -> Seq<u8>
    decreases s.len(),
{
    if s.len() == 0 {
        Seq::empty()
    } else {
        flatten_payloads(s.drop_last()) + s.last().payload@
    }
}

impl Socket {
    /// Send exactly what the window admits of the buffered bytes, as
    /// ACK+PSH segments of at most MSS bytes each, in order: the sent
    /// bytes leave the front of the transmit buffer and `snd_nxt`
    /// advances past them.
    pub fn flush_tx(&mut self, now_ms: u64)
        requires
            old(self).wf(),
        ensures
            final(self).wf(),
            !old(self).can_send_spec() ==> unchanged(*old(self), *final(self)),
            final(self).state == old(self).state,
            final(self).local == old(self).local,
            final(self).foreign == old(self).foreign,
            final(self).rcv_nxt == old(self).rcv_nxt,
            final(self).rcv_wnd == old(self).rcv_wnd,
            final(self).rx_buf@ == old(self).rx_buf@,
            final(self).backlog@ == old(self).backlog@,
            final(self).parent == old(self).parent,
            final(self).accept_ready == old(self).accept_ready,
            final(self).snd_una == old(self).snd_una,
            old(self).pending@.is_prefix_of(final(self).pending@),
            old(self).retransmit@.is_prefix_of(final(self).retransmit@),
            old(self).can_send_spec() ==> {
                &&& final(self).tx_buf@ == old(self).tx_buf@.skip(send_budget(*old(self)))
                &&& final(self).snd_nxt == vstd::wrapping::u32_specs::wrapping_add(
                    old(self).snd_nxt,
                    send_budget(*old(self)) as u32,
                )
                &&& flatten_payloads(
                    final(self).pending@.skip(old(self).pending@.len() as int),
                ) == old(self).tx_buf@.take(send_budget(*old(self)))
                &&& forall|k: int|
                    old(self).pending@.len() <= k < final(self).pending@.len() ==> {
                        &&& (#[trigger] final(self).pending@[k]).flags == (wire::FLG_ACK
                            + wire::FLG_PSH) as u8
                        &&& 1 <= final(self).pending@[k].payload@.len() <= old(self).mss
                        &&& final(self).pending@[k].local == old(self).local
                        &&& final(self).pending@[k].foreign == old(self).foreign
                    }
            },
    {
        if !self.can_send() {
            return ;
        }
        let ghost snd_nxt0 = self.snd_nxt;
        let ghost tx0 = self.tx_buf@;
        let ghost p0 = self.pending@.len() as int;
        let in_flight_now: u32 = self.snd_nxt.wrapping_sub(self.snd_una);
        let mut window_available: u32 = self.snd_wnd as u32;
        if window_available > in_flight_now {
            window_available = window_available - in_flight_now;
        } else {
            window_available = 0;
        }
        let ghost wnd0 = window_available as int;
        let ghost mut sent: int = 0;
        proof {
            assert(self.pending@.skip(p0) =~= Seq::<SendRequest>::empty());
            assert(tx0.take(0) =~= Seq::<u8>::empty());
        }
        while window_available > 0 && self.tx_buf.len() > 0
            invariant
                self.wf(),
                self.state == old(self).state,
                old(self).can_send_spec(),
                self.can_send_spec(),
                self.local == old(self).local,
                self.foreign == old(self).foreign,
                self.rcv_nxt == old(self).rcv_nxt,
                self.rcv_wnd == old(self).rcv_wnd,
                self.rx_buf@ == old(self).rx_buf@,
                self.backlog@ == old(self).backlog@,
                self.parent == old(self).parent,
                self.accept_ready == old(self).accept_ready,
                self.snd_una == old(self).snd_una,
                self.mss == old(self).mss,
                self.mss >= 1,
                self.rx_capacity == old(self).rx_capacity,
                self.tx_capacity == old(self).tx_capacity,
                self.iss == old(self).iss,
                self.irs == old(self).irs,
                self.snd_wnd == old(self).snd_wnd,
                self.snd_wl1 == old(self).snd_wl1,
                self.snd_wl2 == old(self).snd_wl2,
                self.timewait_deadline == old(self).timewait_deadline,
                old(self).pending@.is_prefix_of(self.pending@),
                old(self).retransmit@.is_prefix_of(self.retransmit@),
                tx0 == old(self).tx_buf@,
                snd_nxt0 == old(self).snd_nxt,
                p0 == old(self).pending@.len(),
                0 <= sent <= tx0.len(),
                sent + window_available == wnd0,
                wnd0 == vstd::math::max(0, old(self).snd_wnd - in_flight(*old(self))),
                self.tx_buf@ == tx0.skip(sent),
                self.snd_nxt == vstd::wrapping::u32_specs::wrapping_add(
                    snd_nxt0,
                    sent as u32,
                ),
                flatten_payloads(self.pending@.skip(p0)) == tx0.take(sent),
                forall|k: int|
                    p0 <= k < self.pending@.len() ==> {
                        &&& (#[trigger] self.pending@[k]).flags == (wire::FLG_ACK
                            + wire::FLG_PSH) as u8
                        &&& 1 <= self.pending@[k].payload@.len() <= old(self).mss
                        &&& self.pending@[k].local == old(self).local
                        &&& self.pending@[k].foreign == old(self).foreign
                    },
            decreases self.tx_buf@.len(),
        {
            let mss = self.mss as usize;
            let mut to_send: usize = mss;
            if (window_available as usize) < to_send {
                to_send = window_available as usize;
            }
            if self.tx_buf.len() < to_send {
                to_send = self.tx_buf.len();
            }
            let mut payload: Vec<u8> = Vec::new();
            let mut k: usize = 0;
            let ghost txc = self.tx_buf@;
            while k < to_send
                invariant
                    k <= to_send,
                    to_send <= txc.len(),
                    payload@.len() == k,
                    payload@ == txc.take(k as int),
                    self.tx_buf@ == txc.skip(k as int),
                    self.wf(),
                    self.state == old(self).state,
                    self.can_send_spec(),
                    self.local == old(self).local,
                    self.foreign == old(self).foreign,
                    self.rcv_nxt == old(self).rcv_nxt,
                    self.rcv_wnd == old(self).rcv_wnd,
                    self.rx_buf@ == old(self).rx_buf@,
                    self.backlog@ == old(self).backlog@,
                    self.parent == old(self).parent,
                    self.accept_ready == old(self).accept_ready,
                    self.snd_una == old(self).snd_una,
                    self.mss == old(self).mss,
                    self.rx_capacity == old(self).rx_capacity,
                    self.tx_capacity == old(self).tx_capacity,
                    self.iss == old(self).iss,
                    self.irs == old(self).irs,
                    self.snd_wnd == old(self).snd_wnd,
                    self.snd_wl1 == old(self).snd_wl1,
                    self.snd_wl2 == old(self).snd_wl2,
                    self.snd_nxt == vstd::wrapping::u32_specs::wrapping_add(
                        snd_nxt0,
                        sent as u32,
                    ),
                    self.timewait_deadline == old(self).timewait_deadline,
                    old(self).pending@.is_prefix_of(self.pending@),
                    old(self).retransmit@.is_prefix_of(self.retransmit@),
                    p0 == old(self).pending@.len(),
                    0 <= sent <= tx0.len(),
                    txc == tx0.skip(sent),
                    to_send >= 1,
                    sent + to_send <= tx0.len(),
                    flatten_payloads(self.pending@.skip(p0)) == tx0.take(sent),
                    forall|j: int|
                        p0 <= j < self.pending@.len() ==> {
                            &&& (#[trigger] self.pending@[j]).flags == (wire::FLG_ACK
                                + wire::FLG_PSH) as u8
                            &&& 1 <= self.pending@[j].payload@.len() <= old(self).mss
                            &&& self.pending@[j].local == old(self).local
                            &&& self.pending@[j].foreign == old(self).foreign
                        },
                decreases to_send - k,
            {
                let b = self.tx_buf.pop_front();
                match b {
                    Some(x) => payload.push(x),
                    None => {},
                }
                proof {
                    assert(self.tx_buf@ =~= txc.skip(k + 1));
                    assert(payload@ =~= txc.take(k + 1));
                }
                k = k + 1;
            }
            let ghost p_before = self.pending@;
            let _ = self.egress(wire::FLG_ACK + wire::FLG_PSH, payload.as_slice(), now_ms);
            self.snd_nxt = self.snd_nxt.wrapping_add(to_send as u32);
            window_available = window_available - to_send as u32;
            proof {
                assert(self.pending@.drop_last() =~= p_before);
                assert(self.pending@.last().payload@.len() == to_send);
                assert(forall|j: int|
                    0 <= j < p_before.len() ==> self.pending@[j] == p_before[j]);
                let run_before = p_before.skip(p0);
                let run_now = self.pending@.skip(p0);
                assert(run_now =~= run_before.push(self.pending@.last()));
                assert(run_now.drop_last() =~= run_before);
                assert(flatten_payloads(run_now) == flatten_payloads(run_before)
                    + self.pending@.last().payload@);
                assert(txc =~= tx0.skip(sent));
                assert(tx0.take(sent) + txc.take(to_send as int) =~= tx0.take(
                    sent + to_send,
                ));
                sent = sent + to_send;
                assert(flatten_payloads(self.pending@.skip(p0)) =~= tx0.take(sent));
                assert(self.snd_nxt == vstd::wrapping::u32_specs::wrapping_add(
                    snd_nxt0,
                    sent as u32,
                ));
                assert forall|j: int| p0 <= j < self.pending@.len() implies {
                    &&& (#[trigger] self.pending@[j]).flags == (wire::FLG_ACK
                        + wire::FLG_PSH) as u8
                    &&& 1 <= self.pending@[j].payload@.len() <= old(self).mss
                    &&& self.pending@[j].local == old(self).local
                    &&& self.pending@[j].foreign == old(self).foreign
                } by {
                    if j < p_before.len() {
                        assert(self.pending@[j] == p_before[j]);
                        assert((#[trigger] p_before[j]).flags == (wire::FLG_ACK
                            + wire::FLG_PSH) as u8);
                    } else {
                        assert(j == self.pending@.len() - 1);
                        assert(self.pending@[j] == self.pending@.last());
                    }
                }
            }
        }
        proof {
            assert(sent == send_budget(*old(self)));
        }
    }

    /// Expire TIME-WAIT: at or past the deadline the socket drops to
    /// CLOSED and the deadline is cleared.
    pub fn poll_timewait(&mut self, now_ms: u64)
        requires
            old(self).wf(),
        ensures
            final(self).wf(),
            match old(self).timewait_deadline {
                Some(deadline) => {
                    if now_ms >= deadline && old(self).state == State::TimeWait {
                        &&& final(self).state == State::Closed
                        &&& final(self).timewait_deadline is None
                        &&& same_but_queues(
                            Socket {
                                state: old(self).state,
                                timewait_deadline: old(self).timewait_deadline,
                                ..*final(self)
                            },
                            *old(self),
                        )
                        &&& final(self).pending@ == old(self).pending@
                        &&& final(self).retransmit@ == old(self).retransmit@
                    } else {
                        unchanged(*old(self), *final(self))
                    }
                },
                None => unchanged(*old(self), *final(self)),
            },
    {
        match self.timewait_deadline {
            Some(deadline) => {
                if now_ms >= deadline && matches!(self.state, State::TimeWait) {
                    self.state = State::Closed;
                    self.timewait_deadline = None;
                }
            },
            None => {},
        }
    }

    /// Drive the retransmit queue: an entry unacknowledged past the
    /// abort deadline closes the connection; otherwise every due entry —
    /// and only those — is re-queued once with its recorded segment, its
    /// retry time moves to now, and its timeout doubles.
    pub fn poll_retransmit(&mut self, now_ms: u64)
        requires
            old(self).wf(),
        ensures
            final(self).wf(),
            (exists|i: int|
                0 <= i < old(self).retransmit@.len() && now_ms - old(self).retransmit@[i].first_at >= RETRANSMIT_DEADLINE_MS) ==> final(self).state == State::Closed,
            (forall|i: int|
                0 <= i < old(self).retransmit@.len() ==> now_ms - (#[trigger] old(self).retransmit@[i]).first_at < RETRANSMIT_DEADLINE_MS) ==> {
                &&& final(self).state == old(self).state
                &&& final(self).retransmit@.len() == old(self).retransmit@.len()
                &&& forall|j: int|
                    0 <= j < old(self).retransmit@.len() ==> {
                        &&& (#[trigger] final(self).retransmit@[j]).seq == old(self).retransmit@[j].seq
                        &&& final(self).retransmit@[j].flags == old(self).retransmit@[j].flags
                        &&& final(self).retransmit@[j].payload@ == old(self).retransmit@[j].payload@
                        &&& final(self).retransmit@[j].first_at == old(self).retransmit@[j].first_at
                        &&& final(self).retransmit@[j].last_at == (if entry_due(
                            old(self).retransmit@[j],
                            now_ms as int,
                        ) {
                            now_ms
                        } else {
                            old(self).retransmit@[j].last_at
                        })
                        &&& final(self).retransmit@[j].rto == (if entry_due(
                            old(self).retransmit@[j],
                            now_ms as int,
                        ) {
                            (if old(self).retransmit@[j].rto > u64::MAX / 2 {
                                u64::MAX
                            } else {
                                (old(self).retransmit@[j].rto * 2) as u64
                            })
                        } else {
                            old(self).retransmit@[j].rto
                        })
                    }
                &&& old(self).pending@.is_prefix_of(final(self).pending@)
                &&& final(self).pending@.len() == old(self).pending@.len() + count_due(
                    old(self).retransmit@,
                    now_ms as int,
                    old(self).retransmit@.len() as int,
                )
                &&& forall|j: int|
                    0 <= j < old(self).retransmit@.len() && entry_due(
                        #[trigger] old(self).retransmit@[j],
                        now_ms as int,
                    ) ==> {
                        &&& final(self).pending@[old(self).pending@.len() + count_due(
                            old(self).retransmit@,
                            now_ms as int,
                            j,
                        )].seq == old(self).retransmit@[j].seq
                        &&& final(self).pending@[old(self).pending@.len() + count_due(
                            old(self).retransmit@,
                            now_ms as int,
                            j,
                        )].flags == old(self).retransmit@[j].flags
                        &&& final(self).pending@[old(self).pending@.len() + count_due(
                            old(self).retransmit@,
                            now_ms as int,
                            j,
                        )].payload@ == old(self).retransmit@[j].payload@
                        &&& final(self).pending@[old(self).pending@.len() + count_due(
                            old(self).retransmit@,
                            now_ms as int,
                            j,
                        )].ack == old(self).rcv_nxt
                        &&& final(self).pending@[old(self).pending@.len() + count_due(
                            old(self).retransmit@,
                            now_ms as int,
                            j,
                        )].wnd == old(self).rcv_wnd
                        &&& final(self).pending@[old(self).pending@.len() + count_due(
                            old(self).retransmit@,
                            now_ms as int,
                            j,
                        )].local == old(self).local
                        &&& final(self).pending@[old(self).pending@.len() + count_due(
                            old(self).retransmit@,
                            now_ms as int,
                            j,
                        )].foreign == old(self).foreign
                    }
            },
            final(self).local == old(self).local,
            final(self).foreign == old(self).foreign,
            final(self).backlog@ == old(self).backlog@,
            final(self).parent == old(self).parent,
            final(self).rx_buf@ == old(self).rx_buf@,
            final(self).tx_buf@ == old(self).tx_buf@,
            final(self).rcv_wnd == old(self).rcv_wnd,
            final(self).rcv_nxt == old(self).rcv_nxt,
            final(self).snd_nxt == old(self).snd_nxt,
            final(self).snd_una == old(self).snd_una,
            final(self).accept_ready == old(self).accept_ready,
    {
        let n = self.retransmit.len();
        let ghost p0 = self.pending@.len() as int;
        let mut i: usize = 0;
        while i < n
            invariant
                self.wf(),
                n == self.retransmit@.len(),
                i <= n,
                self.retransmit@.len() == old(self).retransmit@.len(),
                p0 == old(self).pending@.len(),
                forall|j: int|
                    i <= j < n ==> (#[trigger] self.retransmit@[j]) == old(self).retransmit@[j],
                forall|j: int|
                    0 <= j < i ==> now_ms - (#[trigger] old(self).retransmit@[j]).first_at
                        < RETRANSMIT_DEADLINE_MS,
                forall|j: int|
                    0 <= j < i ==> {
                        &&& (#[trigger] self.retransmit@[j]).seq == old(self).retransmit@[j].seq
                        &&& self.retransmit@[j].flags == old(self).retransmit@[j].flags
                        &&& self.retransmit@[j].payload@ == old(self).retransmit@[j].payload@
                        &&& self.retransmit@[j].first_at == old(self).retransmit@[j].first_at
                        &&& self.retransmit@[j].last_at == (if entry_due(
                            old(self).retransmit@[j],
                            now_ms as int,
                        ) {
                            now_ms
                        } else {
                            old(self).retransmit@[j].last_at
                        })
                        &&& self.retransmit@[j].rto == (if entry_due(
                            old(self).retransmit@[j],
                            now_ms as int,
                        ) {
                            (if old(self).retransmit@[j].rto > u64::MAX / 2 {
                                u64::MAX
                            } else {
                                (old(self).retransmit@[j].rto * 2) as u64
                            })
                        } else {
                            old(self).retransmit@[j].rto
                        })
                    },
                old(self).pending@.is_prefix_of(self.pending@),
                self.pending@.len() == p0 + count_due(
                    old(self).retransmit@,
                    now_ms as int,
                    i as int,
                ),
                forall|j: int|
                    0 <= j < i && entry_due(
                        #[trigger] old(self).retransmit@[j],
                        now_ms as int,
                    ) ==> {
                        &&& self.pending@[p0 + count_due(
                            old(self).retransmit@,
                            now_ms as int,
                            j,
                        )].seq == old(self).retransmit@[j].seq
                        &&& self.pending@[p0 + count_due(
                            old(self).retransmit@,
                            now_ms as int,
                            j,
                        )].flags == old(self).retransmit@[j].flags
                        &&& self.pending@[p0 + count_due(
                            old(self).retransmit@,
                            now_ms as int,
                            j,
                        )].payload@ == old(self).retransmit@[j].payload@
                        &&& self.pending@[p0 + count_due(
                            old(self).retransmit@,
                            now_ms as int,
                            j,
                        )].ack == old(self).rcv_nxt
                        &&& self.pending@[p0 + count_due(
                            old(self).retransmit@,
                            now_ms as int,
                            j,
                        )].wnd == old(self).rcv_wnd
                        &&& self.pending@[p0 + count_due(
                            old(self).retransmit@,
                            now_ms as int,
                            j,
                        )].local == old(self).local
                        &&& self.pending@[p0 + count_due(
                            old(self).retransmit@,
                            now_ms as int,
                            j,
                        )].foreign == old(self).foreign
                    },
                self.state == old(self).state,
                self.local == old(self).local,
                self.foreign == old(self).foreign,
                self.backlog@ == old(self).backlog@,
                self.parent == old(self).parent,
                self.rx_buf@ == old(self).rx_buf@,
                self.tx_buf@ == old(self).tx_buf@,
                self.rcv_wnd == old(self).rcv_wnd,
                self.rcv_nxt == old(self).rcv_nxt,
                self.snd_nxt == old(self).snd_nxt,
                self.snd_una == old(self).snd_una,
                self.accept_ready == old(self).accept_ready,
            decreases n - i,
        {
            if now_ms.saturating_sub(self.retransmit[i].first_at) >= RETRANSMIT_DEADLINE_MS {
                self.state = State::Closed;
                return ;
            }
            let due = now_ms.saturating_sub(self.retransmit[i].last_at) >= self.retransmit[i].rto;
            proof {
                assert(due == entry_due(old(self).retransmit@[i as int], now_ms as int));
            }
            let ghost pb = self.pending@;
            if due {
                let payload_copy = vstd::slice::slice_to_vec(self.retransmit[i].payload.as_slice());
                let req = SendRequest {
                    seq: self.retransmit[i].seq,
                    ack: self.rcv_nxt,
                    flags: self.retransmit[i].flags,
                    wnd: self.rcv_wnd,
                    payload: payload_copy,
                    local: self.local,
                    foreign: self.foreign,
                };
                self.pending.push(req);
                let entry = &mut self.retransmit[i];
                entry.last_at = now_ms;
                entry.rto = if entry.rto > u64::MAX / 2 {
                    u64::MAX
                } else {
                    entry.rto * 2
                };
            }
            proof {
                assert(forall|k: int| 0 <= k < pb.len() ==> self.pending@[k] == pb[k]);
                assert(count_due(old(self).retransmit@, now_ms as int, i + 1) == count_due(
                    old(self).retransmit@,
                    now_ms as int,
                    i as int,
                ) + (if entry_due(old(self).retransmit@[i as int], now_ms as int) {
                    1int
                } else {
                    0
                }));
                if due {
                    assert(pb.len() == p0 + count_due(
                        old(self).retransmit@,
                        now_ms as int,
                        i as int,
                    ));
                    assert(self.pending@[pb.len() as int] == self.pending@.last());
                    assert(self.pending@.last().seq == old(self).retransmit@[i as int].seq);
                    assert(self.pending@.last().flags == old(self).retransmit@[i as int].flags);
                    assert(self.pending@.last().payload@ == old(self).retransmit@[i as int].payload@);
                }
                assert forall|j: int|
                    0 <= j < i + 1 && entry_due(
                        #[trigger] old(self).retransmit@[j],
                        now_ms as int,
                    ) implies self.pending@[p0 + count_due(
                    old(self).retransmit@,
                    now_ms as int,
                    j,
                )].seq == old(self).retransmit@[j].seq && self.pending@[p0 + count_due(
                    old(self).retransmit@,
                    now_ms as int,
                    j,
                )].flags == old(self).retransmit@[j].flags && self.pending@[p0 + count_due(
                    old(self).retransmit@,
                    now_ms as int,
                    j,
                )].payload@ == old(self).retransmit@[j].payload@ && self.pending@[p0 + count_due(
                    old(self).retransmit@,
                    now_ms as int,
                    j,
                )].ack == old(self).rcv_nxt && self.pending@[p0 + count_due(
                    old(self).retransmit@,
                    now_ms as int,
                    j,
                )].wnd == old(self).rcv_wnd && self.pending@[p0 + count_due(
                    old(self).retransmit@,
                    now_ms as int,
                    j,
                )].local == old(self).local && self.pending@[p0 + count_due(
                    old(self).retransmit@,
                    now_ms as int,
                    j,
                )].foreign == old(self).foreign by {
                    lemma_count_due_mono(old(self).retransmit@, now_ms as int, 0, j);
                    let idx = p0 + count_due(old(self).retransmit@, now_ms as int, j);
                    if j < i {
                        lemma_count_due_mono(old(self).retransmit@, now_ms as int, j, i as int);
                        assert(idx < pb.len());
                        assert(self.pending@[idx] == pb[idx]);
                        assert(pb[idx].seq == old(self).retransmit@[j].seq);
                    } else {
                        assert(j == i);
                        assert(due);
                        assert(idx == pb.len());
                        assert(self.pending@[idx] == self.pending@.last());
                    }
                }
            }
            i = i + 1;
        }
    }

    /// Move every queued outbound segment to `out`, preserving order.
    pub fn drain_pending(&mut self, out: &mut Vec<SendRequest>)
        requires
            old(self).wf(),
        ensures
            final(self).wf(),
            same_but_queues(*old(self), *final(self)),
            final(self).retransmit@ == old(self).retransmit@,
            final(self).pending@.len() == 0,
            final(out)@ == old(out)@ + old(self).pending@,
    {
        out.append(&mut self.pending);
    }

    /// Whether this socket owns the exact four-tuple, in any non-closed
    /// state.
    pub fn matches_established(&self, local: &IpEndpoint, foreign: &IpEndpoint) -> (r: bool)
        ensures
            r == matches_established_spec(*self, *local, *foreign),
    {
        if matches!(self.state, State::Closed) {
            return false;
        }
        self.local.addr.0 == local.addr.0 && self.local.port == local.port && self.foreign.addr.0
            == foreign.addr.0 && self.foreign.port == foreign.port
    }

    /// Whether this socket listens on an endpoint that wildcard-matches
    /// `local`.
    pub fn matches_listen(&self, local: &IpEndpoint) -> (r: bool)
        ensures
            r == matches_listen_spec(*self, *local),
    {
        if !matches!(self.state, State::Listen) {
            return false;
        }
        let addr_ok = self.local.addr.0 == 0 || self.local.addr.0 == local.addr.0;
        let port_ok = self.local.port == 0 || self.local.port == local.port;
        addr_ok && port_ok
    }
}

/// A non-closed socket whose four-tuple is exactly `(local, foreign)`.
pub open spec fn matches_established_spec(s: Socket, local: IpEndpoint, foreign: IpEndpoint) -> bool {
    &&& s.state != State::Closed
    &&& s.local.addr.0 == local.addr.0
    &&& s.local.port == local.port
    &&& s.foreign.addr.0 == foreign.addr.0
    &&& s.foreign.port == foreign.port
}

/// A listening socket whose local endpoint wildcard-matches `local`.
pub open spec fn matches_listen_spec(s: Socket, local: IpEndpoint) -> bool {
    &&& s.state == State::Listen
    &&& (s.local.addr.0 == 0 || s.local.addr.0 == local.addr.0)
    &&& (s.local.port == 0 || s.local.port == local.port)
}

} // verus!

verus! {

/// The RFC 9293 window acceptability test for an incoming segment.
pub open spec fn window_acceptable(s: Socket, m: SegMeta) -> bool {
    let end = vstd::wrapping::u32_specs::wrapping_add(s.rcv_nxt, s.rcv_wnd as u32);
    if m.len == 0 {
        if s.rcv_wnd == 0 {
            m.seq == s.rcv_nxt
        } else {
            seq_between(s.rcv_nxt, m.seq, end)
        }
    } else {
        if s.rcv_wnd == 0 {
            false
        } else {
            seq_between(s.rcv_nxt, m.seq, end) || seq_between(
                s.rcv_nxt,
                vstd::wrapping::u32_specs::wrapping_add(m.seq, (m.len - 1) as u32),
                end,
            )
        }
    }
}

/// An acknowledgment that advances into the unacknowledged span.
pub open spec fn ack_in_window(s: Socket, m: SegMeta) -> bool {
    seq_lt(s.snd_una, m.ack) && seq_le(m.ack, s.snd_nxt)
}

/// Whether the segment is recent enough to update the send window.
pub open spec fn wnd_update_due(s: Socket, m: SegMeta) -> bool {
    seq_lt(s.snd_wl1, m.seq) || (s.snd_wl1 == m.seq && seq_le(s.snd_wl2, m.ack))
}

/// The reset a segment draws when it matches no usable connection state:
/// with ACK set, a bare RST at the offending acknowledgment; without, an
/// RST+ACK that acknowledges the segment's whole length.
pub open spec fn is_rst_reply(
    m: SegMeta,
    ack_present: bool,
    local: IpEndpoint,
    foreign: IpEndpoint,
    r: SendRequest,
) -> bool {
    &&& r.seq == (if ack_present {
        m.ack
    } else {
        0u32
    })
    &&& r.ack == (if ack_present {
        0u32
    } else {
        vstd::wrapping::u32_specs::wrapping_add(m.seq, m.len)
    })
    &&& r.flags == (if ack_present {
        wire::FLG_RST
    } else {
        (wire::FLG_RST + wire::FLG_ACK) as u8
    })
    &&& r.wnd == 0
    &&& r.payload@.len() == 0
    &&& r.local == local
    &&& r.foreign == foreign
}

impl Socket {
    /// Queue the reset drawn by an unacceptable segment.
    pub fn send_rst_for_segment(&mut self, m: SegMeta, ack_present: bool)
        requires
            old(self).wf(),
        ensures
            final(self).wf(),
            same_but_queues(*old(self), *final(self)),
            final(self).retransmit@ == old(self).retransmit@,
            final(self).pending@.len() == old(self).pending@.len() + 1,
            final(self).pending@.drop_last() == old(self).pending@,
            is_rst_reply(
                m,
                ack_present,
                old(self).local,
                old(self).foreign,
                final(self).pending@.last(),
            ),
    {
        if ack_present {
            self.pending.push(
                SendRequest {
                    seq: m.ack,
                    ack: 0,
                    flags: wire::FLG_RST,
                    wnd: 0,
                    payload: Vec::new(),
                    local: self.local,
                    foreign: self.foreign,
                },
            );
        } else {
            self.pending.push(
                SendRequest {
                    seq: 0,
                    ack: m.seq.wrapping_add(m.len),
                    flags: wire::FLG_RST + wire::FLG_ACK,
                    wnd: 0,
                    payload: Vec::new(),
                    local: self.local,
                    foreign: self.foreign,
                },
            );
        }
    }

    /// Accept the segment, or schedule the bare acknowledgment owed for
    /// an unacceptable non-RST segment.
    fn accept_or_ack(&mut self, m: SegMeta, acceptable: bool, now_ms: u64) -> (r: bool)
        requires
            old(self).wf(),
        ensures
            final(self).wf(),
            r == acceptable,
            acceptable ==> unchanged(*old(self), *final(self)),
            !acceptable && wire::has_rst(m.flags) ==> unchanged(*old(self), *final(self)),
            !acceptable && !wire::has_rst(m.flags) ==> {
                &&& same_but_queues(*old(self), *final(self))
                &&& final(self).retransmit@ == old(self).retransmit@
                &&& final(self).pending@.len() == old(self).pending@.len() + 1
                &&& final(self).pending@.drop_last() == old(self).pending@
                &&& is_egress_req(
                    *old(self),
                    wire::FLG_ACK,
                    Seq::<u8>::empty(),
                    final(self).pending@.last(),
                )
            },
    {
        if !acceptable && !wire::rst_set(m.flags) {
            let empty: &[u8] = &[];
            let _ = self.egress(wire::FLG_ACK, empty, now_ms);
            proof {
                assert(empty@ =~= Seq::<u8>::empty());
            }
        }
        acceptable
    }

    /// The window check: an unacceptable non-RST segment draws exactly
    /// one bare acknowledgment and nothing else changes.
    pub fn validate_window(&mut self, m: SegMeta, now_ms: u64) -> (acc: bool)
        requires
            old(self).wf(),
        ensures
            final(self).wf(),
            acc == window_acceptable(*old(self), m),
            acc ==> unchanged(*old(self), *final(self)),
            !acc && wire::has_rst(m.flags) ==> unchanged(*old(self), *final(self)),
            !acc && !wire::has_rst(m.flags) ==> {
                &&& same_but_queues(*old(self), *final(self))
                &&& final(self).retransmit@ == old(self).retransmit@
                &&& final(self).pending@.len() == old(self).pending@.len() + 1
                &&& final(self).pending@.drop_last() == old(self).pending@
                &&& is_egress_req(
                    *old(self),
                    wire::FLG_ACK,
                    Seq::<u8>::empty(),
                    final(self).pending@.last(),
                )
            },
    {
        let rcv_nxt = self.rcv_nxt;
        let rcv_wnd = self.rcv_wnd;
        let seg_seq = m.seq;
        let seg_len = m.len;

        if seg_len == 0 {
            if rcv_wnd == 0 {
                return self.accept_or_ack(m, seg_seq == rcv_nxt, now_ms);
            }
            let end = rcv_nxt.wrapping_add(rcv_wnd as u32);
            return self.accept_or_ack(m, seq_between_exec(rcv_nxt, seg_seq, end), now_ms);
        }

        if rcv_wnd == 0 {
            return self.accept_or_ack(m, false, now_ms);
        }

        let end = rcv_nxt.wrapping_add(rcv_wnd as u32);
        let seg_end = seg_seq.wrapping_add(seg_len - 1);
        self.accept_or_ack(
            m,
            seq_between_exec(rcv_nxt, seg_seq, end) || seq_between_exec(rcv_nxt, seg_end, end),
            now_ms,
        )
    }
}

} // verus!

verus! {

/// An acknowledgment acceptable while synchronising: at or above the
/// unacknowledged mark and not past what was sent.
pub open spec fn syn_sent_acceptable_ack(s: Socket, m: SegMeta) -> bool {
    wire::has_ack(m.flags) && seq_le(s.snd_una, m.ack) && seq_le(m.ack, s.snd_nxt)
}

/// An acknowledgment in SYN-SENT that must draw a reset: at or below the
/// initial sequence, or beyond what was sent.
pub open spec fn syn_sent_bad_ack(s: Socket, m: SegMeta) -> bool {
    wire::has_ack(m.flags) && (seq_le(m.ack, s.iss) || seq_lt(s.snd_nxt, m.ack))
}

impl Socket {
    /// The SYN-SENT special path of segment arrival.
    pub fn handle_syn_sent(&mut self, m: SegMeta, now_ms: u64) -> (done: bool)
        requires
            old(self).wf(),
        ensures
            final(self).wf(),
            final(self).local == old(self).local,
            final(self).foreign == old(self).foreign,
            final(self).parent == old(self).parent,
            final(self).backlog@ == old(self).backlog@,
            final(self).accept_ready == old(self).accept_ready,
            final(self).rx_capacity == old(self).rx_capacity,
            final(self).tx_capacity == old(self).tx_capacity,
            final(self).mss == old(self).mss,
            done == (old(self).state == State::SynSent),
            !done ==> unchanged(*old(self), *final(self)),
            old(self).state == State::SynSent ==> {
                &&& (syn_sent_bad_ack(*old(self), m) ==> {
                    &&& same_but_queues(*old(self), *final(self))
                    &&& final(self).pending@.len() == old(self).pending@.len() + 1
                    &&& is_rst_reply(
                        m,
                        true,
                        old(self).local,
                        old(self).foreign,
                        final(self).pending@.last(),
                    )
                })
                &&& (!syn_sent_bad_ack(*old(self), m) && wire::has_rst(m.flags) ==> {
                    &&& final(self).state == (if syn_sent_acceptable_ack(*old(self), m) {
                        State::Closed
                    } else {
                        State::SynSent
                    })
                    &&& final(self).pending@ == old(self).pending@
                    &&& final(self).rx_buf@ == old(self).rx_buf@
                })
                &&& (!syn_sent_bad_ack(*old(self), m) && !wire::has_rst(m.flags) && wire::has_syn(
                    m.flags,
                ) ==> {
                    &&& final(self).irs == m.seq
                    &&& final(self).rcv_nxt == vstd::wrapping::u32_specs::wrapping_add(m.seq, 1)
                    &&& (wire::has_ack(m.flags) ==> final(self).snd_una == m.ack && final(self).snd_wnd == m.wnd && final(self).snd_wl1 == m.seq && final(self).snd_wl2
                        == m.ack)
                    &&& (wire::has_ack(m.flags) && seq_lt(old(self).iss, m.ack) ==> {
                        &&& final(self).state == State::Established
                        &&& final(self).pending@.len() == old(self).pending@.len() + 1
                        &&& final(self).pending@.last().flags == wire::FLG_ACK
                        &&& final(self).pending@.last().seq == old(self).snd_nxt
                        &&& final(self).pending@.last().ack == final(self).rcv_nxt
                    })
                    &&& (!(wire::has_ack(m.flags) && seq_lt(old(self).iss, m.ack)) ==> {
                        &&& final(self).state == State::SynReceived
                        &&& final(self).pending@.len() == old(self).pending@.len() + 1
                        &&& final(self).pending@.last().flags == (wire::FLG_SYN
                            + wire::FLG_ACK) as u8
                        &&& final(self).pending@.last().seq == old(self).iss
                        &&& final(self).pending@.last().ack == final(self).rcv_nxt
                    })
                })
                &&& (!syn_sent_bad_ack(*old(self), m) && !wire::has_rst(m.flags) && !wire::has_syn(
                    m.flags,
                ) ==> unchanged(*old(self), *final(self)))
            },
    {
        if !matches!(self.state, State::SynSent) {
            return false;
        }

        if wire::ack_set(m.flags) && (seq_le_exec(m.ack, self.iss) || seq_lt_exec(
            self.snd_nxt,
            m.ack,
        )) {
            self.send_rst_for_segment(m, true);
            return true;
        }

        let acceptable_ack = wire::ack_set(m.flags) && seq_le_exec(self.snd_una, m.ack)
            && seq_le_exec(m.ack, self.snd_nxt);

        if wire::rst_set(m.flags) {
            if acceptable_ack {
                self.state = State::Closed;
            }
            return true;
        }

        if wire::syn_set(m.flags) {
            self.irs = m.seq;
            self.rcv_nxt = m.seq.wrapping_add(1);

            if wire::ack_set(m.flags) {
                self.snd_una = m.ack;
                self.cleanup_retransmit();
                self.snd_wnd = m.wnd;
                self.snd_wl1 = m.seq;
                self.snd_wl2 = m.ack;
            }

            if wire::ack_set(m.flags) && seq_lt_exec(self.iss, self.snd_una) {
                self.state = State::Established;
                let empty: &[u8] = &[];
                let _ = self.egress(wire::FLG_ACK, empty, now_ms);
            } else {
                self.state = State::SynReceived;
                let empty: &[u8] = &[];
                let _ = self.egress(wire::FLG_SYN + wire::FLG_ACK, empty, now_ms);
            }
        }

        true
    }

    /// A retransmitted SYN while in SYN-RECEIVED draws the SYN+ACK again.
    pub fn handle_syn_received_duplicate(&mut self, m: SegMeta, now_ms: u64) -> (done: bool)
        requires
            old(self).wf(),
        ensures
            final(self).wf(),
            done == (old(self).state == State::SynReceived && wire::has_syn(m.flags)),
            !done ==> unchanged(*old(self), *final(self)),
            done ==> {
                &&& same_but_queues(*old(self), *final(self))
                &&& final(self).pending@.len() == old(self).pending@.len() + 1
                &&& final(self).pending@.drop_last() == old(self).pending@
                &&& is_egress_req(
                    *old(self),
                    (wire::FLG_SYN + wire::FLG_ACK) as u8,
                    Seq::<u8>::empty(),
                    final(self).pending@.last(),
                )
            },
    {
        if !matches!(self.state, State::SynReceived) || !wire::syn_set(m.flags) {
            return false;
        }
        let empty: &[u8] = &[];
        let _ = self.egress(wire::FLG_SYN + wire::FLG_ACK, empty, now_ms);
        proof {
            assert(empty@ =~= Seq::<u8>::empty());
        }
        true
    }

    /// Acknowledgment processing: completes the passive handshake, drives
    /// `snd_una`, the send window and the closing transitions.
    pub fn handle_ack(&mut self, m: SegMeta, now_ms: u64) -> (cont: bool)
        requires
            old(self).wf(),
        ensures
            final(self).wf(),
            final(self).local == old(self).local,
            final(self).foreign == old(self).foreign,
            final(self).parent == old(self).parent,
            final(self).backlog@ == old(self).backlog@,
            final(self).rx_capacity == old(self).rx_capacity,
            final(self).tx_capacity == old(self).tx_capacity,
            final(self).mss == old(self).mss,
            !wire::has_ack(m.flags) ==> unchanged(*old(self), *final(self)) && cont == (old(self).state == State::SynReceived),
            wire::has_ack(m.flags) && old(self).state == State::SynReceived && ack_in_window(
                *old(self),
                m,
            ) ==> {
                &&& cont
                &&& final(self).state == State::Established
                &&& final(self).snd_una == m.ack
                &&& final(self).snd_wnd == m.wnd
                &&& final(self).snd_wl1 == m.seq
                &&& final(self).snd_wl2 == m.ack
                &&& final(self).accept_ready == (if old(self).parent is Some {
                    true
                } else {
                    old(self).accept_ready
                })
                &&& final(self).pending@ == old(self).pending@
                &&& final(self).rx_buf@ == old(self).rx_buf@
                &&& final(self).backlog@ == old(self).backlog@
                &&& final(self).parent == old(self).parent
                &&& final(self).rcv_nxt == old(self).rcv_nxt
                &&& final(self).rcv_wnd == old(self).rcv_wnd
            },
            wire::has_ack(m.flags) && old(self).state == State::SynReceived && !ack_in_window(
                *old(self),
                m,
            ) ==> {
                &&& !cont
                &&& same_but_queues(*old(self), *final(self))
                &&& final(self).pending@.len() == old(self).pending@.len() + 1
                &&& is_rst_reply(
                    m,
                    true,
                    old(self).local,
                    old(self).foreign,
                    final(self).pending@.last(),
                )
            },
            wire::has_ack(m.flags) && old(self).state != State::SynReceived && !ack_in_window(
                *old(self),
                m,
            ) ==> cont && unchanged(*old(self), *final(self)),
            wire::has_ack(m.flags) && old(self).state != State::SynReceived && ack_in_window(
                *old(self),
                m,
            ) ==> {
                &&& final(self).snd_una == m.ack
                &&& (wnd_update_due(*old(self), m) ==> final(self).snd_wnd == m.wnd && final(self).snd_wl1 == m.seq && final(self).snd_wl2 == m.ack)
                &&& (!wnd_update_due(*old(self), m) ==> final(self).snd_wnd == old(self).snd_wnd
                    && final(self).snd_wl1 == old(self).snd_wl1 && final(self).snd_wl2 == old(self).snd_wl2)
                &&& final(self).pending@ == old(self).pending@
                &&& final(self).rx_buf@ == old(self).rx_buf@
                &&& final(self).rcv_nxt == old(self).rcv_nxt
                &&& final(self).rcv_wnd == old(self).rcv_wnd
                &&& final(self).snd_nxt == old(self).snd_nxt
                &&& final(self).backlog@ == old(self).backlog@
                &&& final(self).accept_ready == old(self).accept_ready
                &&& (old(self).state == State::FinWait1 ==> final(self).state == (if m.ack == old(self).snd_nxt {
                    State::FinWait2
                } else {
                    State::FinWait1
                }) && cont)
                &&& (old(self).state == State::Closing ==> final(self).state == (if m.ack == old(self).snd_nxt {
                    State::TimeWait
                } else {
                    State::Closing
                }) && cont)
                &&& (old(self).state == State::Closing && m.ack == old(self).snd_nxt ==> final(self).timewait_deadline == Some(
                    (if now_ms + TIMEWAIT_MS > u64::MAX {
                        u64::MAX
                    } else {
                        (now_ms + TIMEWAIT_MS) as u64
                    }),
                ))
                &&& (old(self).state == State::LastAck && m.ack == old(self).snd_nxt ==> final(self).state == State::Closed && !cont)
                &&& (old(self).state == State::LastAck && m.ack != old(self).snd_nxt ==> final(self).state == State::LastAck && cont)
                &&& ((old(self).state == State::Established || old(self).state == State::CloseWait
                    || old(self).state == State::FinWait2 || old(self).state == State::TimeWait)
                    ==> final(self).state == old(self).state && cont)
            },
    {
        if !wire::ack_set(m.flags) {
            return matches!(self.state, State::SynReceived);
        }

        let ack_ok = seq_lt_exec(self.snd_una, m.ack) && seq_le_exec(m.ack, self.snd_nxt);

        if matches!(self.state, State::SynReceived) {
            if !ack_ok {
                self.send_rst_for_segment(m, true);
                return false;
            }

            self.snd_una = m.ack;
            self.cleanup_retransmit();
            self.snd_wnd = m.wnd;
            self.snd_wl1 = m.seq;
            self.snd_wl2 = m.ack;
            self.state = State::Established;
            if self.parent.is_some() {
                self.accept_ready = true;
            }
            return true;
        }

        if !ack_ok {
            return true;
        }

        self.snd_una = m.ack;
        self.cleanup_retransmit();

        if seq_lt_exec(self.snd_wl1, m.seq) || (self.snd_wl1 == m.seq && seq_le_exec(
            self.snd_wl2,
            m.ack,
        )) {
            self.snd_wnd = m.wnd;
            self.snd_wl1 = m.seq;
            self.snd_wl2 = m.ack;
        }

        match self.state {
            State::FinWait1 => {
                if self.snd_una == self.snd_nxt {
                    self.state = State::FinWait2;
                }
            },
            State::Closing => {
                if self.snd_una == self.snd_nxt {
                    self.state = State::TimeWait;
                    self.timewait_deadline = Some(now_ms.saturating_add(TIMEWAIT_MS));
                }
            },
            State::LastAck => {
                if self.snd_una == self.snd_nxt {
                    self.state = State::Closed;
                    return false;
                }
            },
            _ => {},
        }

        true
    }
}

} // verus!

verus! {

/// The segment that completes a passive handshake: the first valid
/// acknowledgment arriving in SYN-RECEIVED.
pub open spec fn completes_handshake(s: Socket, m: SegMeta) -> bool {
    &&& s.state == State::SynReceived
    &&& !wire::has_syn(m.flags)
    &&& window_acceptable(s, m)
    &&& !wire::has_rst(m.flags)
    &&& wire::has_ack(m.flags)
    &&& ack_in_window(s, m)
}

/// The states that accept payload bytes.
pub open spec fn accepts_data(s: State) -> bool {
    s == State::Established || s == State::FinWait1 || s == State::FinWait2
}

impl Socket {
    /// Payload delivery: only the exactly in-order segment is buffered
    /// (no out-of-order queue); any data segment schedules an ACK.
    pub fn handle_payload(&mut self, m: SegMeta, payload: &[u8]) -> (send_ack: bool)
        requires
            old(self).wf(),
            payload@.len() <= 0xffff,
        ensures
            final(self).wf(),
            final(self).local == old(self).local,
            final(self).foreign == old(self).foreign,
            final(self).parent == old(self).parent,
            final(self).backlog@ == old(self).backlog@,
            final(self).rx_capacity == old(self).rx_capacity,
            final(self).tx_capacity == old(self).tx_capacity,
            final(self).mss == old(self).mss,
            payload@.len() == 0 ==> unchanged(*old(self), *final(self)) && !send_ack,
            payload@.len() > 0 && !accepts_data(old(self).state) ==> unchanged(
                *old(self),
                *final(self),
            ) && !send_ack,
            payload@.len() > 0 && accepts_data(old(self).state) ==> {
                &&& send_ack
                &&& final(self).pending@ == old(self).pending@
                &&& final(self).retransmit@ == old(self).retransmit@
                &&& final(self).state == old(self).state
                &&& final(self).snd_nxt == old(self).snd_nxt
                &&& final(self).snd_una == old(self).snd_una
                &&& final(self).backlog@ == old(self).backlog@
                &&& final(self).tx_buf@ == old(self).tx_buf@
                &&& final(self).accept_ready == old(self).accept_ready
                &&& (m.seq == old(self).rcv_nxt ==> {
                    &&& final(self).rx_buf@ == old(self).rx_buf@ + payload@.take(
                        vstd::math::min(
                            old(self).rx_capacity - old(self).rx_buf@.len(),
                            payload@.len() as int,
                        ),
                    )
                    &&& final(self).rcv_nxt == vstd::wrapping::u32_specs::wrapping_add(
                        old(self).rcv_nxt,
                        vstd::math::min(
                            old(self).rx_capacity - old(self).rx_buf@.len(),
                            payload@.len() as int,
                        ) as u32,
                    )
                })
                &&& (m.seq != old(self).rcv_nxt ==> final(self).rx_buf@ == old(self).rx_buf@
                    && final(self).rcv_nxt == old(self).rcv_nxt)
                &&& final(self).rcv_wnd == final(self).rx_capacity - final(self).rx_buf@.len()
            },
    {
        if payload.len() == 0 {
            return false;
        }
        let data_state = match self.state {
            State::Established | State::FinWait1 | State::FinWait2 => true,
            _ => false,
        };
        if !data_state {
            return false;
        }

        if m.seq == self.rcv_nxt {
            let space = self.rx_capacity - self.rx_buf.len();
            let to_copy = if space < payload.len() {
                space
            } else {
                payload.len()
            };
            let mut k: usize = 0;
            while k < to_copy
                invariant
                    k <= to_copy,
                    to_copy <= payload@.len(),
                    old(self).rx_buf@.len() + to_copy <= old(self).rx_capacity,
                    self.rx_buf@ == old(self).rx_buf@ + payload@.take(k as int),
                    same_but_queues_except_rx(*old(self), *self),
                    self.rcv_wnd == old(self).rcv_wnd,
                    self.rcv_nxt == old(self).rcv_nxt,
                    self.pending@ == old(self).pending@,
                    self.retransmit@ == old(self).retransmit@,
                decreases to_copy - k,
            {
                self.rx_buf.push_back(payload[k]);
                proof {
                    assert(self.rx_buf@ =~= old(self).rx_buf@ + payload@.take(k + 1));
                }
                k = k + 1;
            }
            self.rcv_nxt = self.rcv_nxt.wrapping_add(to_copy as u32);
        }

        self.rcv_wnd = (self.rx_capacity - self.rx_buf.len()) as u16;
        true
    }

    /// FIN processing: advance past the FIN, schedule an ACK, and drive
    /// the close-side transitions.
    pub fn handle_fin(&mut self, m: SegMeta, payload_len: usize, now_ms: u64) -> (send_ack: bool)
        requires
            old(self).wf(),
            payload_len <= 0xffff,
        ensures
            final(self).wf(),
            final(self).local == old(self).local,
            final(self).foreign == old(self).foreign,
            final(self).parent == old(self).parent,
            final(self).backlog@ == old(self).backlog@,
            final(self).rx_capacity == old(self).rx_capacity,
            final(self).tx_capacity == old(self).tx_capacity,
            final(self).mss == old(self).mss,
            send_ack == wire::has_fin(m.flags),
            !wire::has_fin(m.flags) ==> unchanged(*old(self), *final(self)),
            wire::has_fin(m.flags) ==> {
                &&& final(self).accept_ready == old(self).accept_ready
                &&& final(self).snd_nxt == old(self).snd_nxt
                &&& final(self).snd_una == old(self).snd_una
                &&& final(self).pending@ == old(self).pending@
                &&& final(self).retransmit@ == old(self).retransmit@
                &&& final(self).rx_buf@ == old(self).rx_buf@
                &&& final(self).tx_buf@ == old(self).tx_buf@
                &&& final(self).rcv_wnd == old(self).rcv_wnd
                &&& final(self).backlog@ == old(self).backlog@
                &&& ({
                    let fin_end = vstd::wrapping::u32_specs::wrapping_add(
                        vstd::wrapping::u32_specs::wrapping_add(m.seq, payload_len as u32),
                        1,
                    );
                    final(self).rcv_nxt == (if seq_lt(old(self).rcv_nxt, fin_end) {
                        fin_end
                    } else {
                        old(self).rcv_nxt
                    })
                })
                &&& ((old(self).state == State::SynReceived || old(self).state
                    == State::Established) ==> final(self).state == State::CloseWait)
                &&& (old(self).state == State::FinWait1 ==> final(self).state == (if old(self).snd_una == old(self).snd_nxt {
                    State::TimeWait
                } else {
                    State::Closing
                }))
                &&& (old(self).state == State::FinWait2 ==> final(self).state == State::TimeWait)
                &&& ((old(self).state == State::TimeWait || old(self).state == State::FinWait2
                    || (old(self).state == State::FinWait1 && old(self).snd_una == old(self).snd_nxt)) ==> final(self).timewait_deadline == Some(
                    (if now_ms + TIMEWAIT_MS > u64::MAX {
                        u64::MAX
                    } else {
                        (now_ms + TIMEWAIT_MS) as u64
                    }),
                ))
                &&& ((old(self).state == State::Closed || old(self).state == State::Listen || old(self).state == State::SynSent || old(self).state == State::CloseWait || old(self).state == State::Closing || old(self).state == State::LastAck) ==> final(self).state == old(self).state)
            },
    {
        if !wire::fin_set(m.flags) {
            return false;
        }

        let fin_end = m.seq.wrapping_add(payload_len as u32).wrapping_add(1);
        if seq_lt_exec(self.rcv_nxt, fin_end) {
            self.rcv_nxt = fin_end;
        }

        match self.state {
            State::SynReceived | State::Established => {
                self.state = State::CloseWait;
            },
            State::FinWait1 => {
                if self.snd_una == self.snd_nxt {
                    self.state = State::TimeWait;
                    self.timewait_deadline = Some(now_ms.saturating_add(TIMEWAIT_MS));
                } else {
                    self.state = State::Closing;
                }
            },
            State::FinWait2 => {
                self.state = State::TimeWait;
                self.timewait_deadline = Some(now_ms.saturating_add(TIMEWAIT_MS));
            },
            State::TimeWait => {
                self.timewait_deadline = Some(now_ms.saturating_add(TIMEWAIT_MS));
            },
            _ => {},
        }
        true
    }

    /// Run one incoming segment through the full processing pipeline:
    /// the SYN-SENT path, the duplicate-SYN path, the window check, RST,
    /// stray SYN, acknowledgment, payload and FIN, then the scheduled
    /// acknowledgment if one is owed.
    pub fn handle_segment(&mut self, m: SegMeta, payload: &[u8], now_ms: u64)
        requires
            old(self).wf(),
            payload@.len() <= 0xffff,
        ensures
            final(self).wf(),
            final(self).local == old(self).local,
            final(self).foreign == old(self).foreign,
            final(self).parent == old(self).parent,
            final(self).backlog@ == old(self).backlog@,
            final(self).rx_capacity == old(self).rx_capacity,
            final(self).tx_capacity == old(self).tx_capacity,
            final(self).mss == old(self).mss,
            // An out-of-window segment that is not a reset draws exactly
            // one bare acknowledgment and changes nothing else.
            (old(self).state != State::SynSent && !(old(self).state == State::SynReceived
                && wire::has_syn(m.flags)) && !window_acceptable(*old(self), m) && !wire::has_rst(
                m.flags,
            )) ==> {
                &&& same_but_queues(*old(self), *final(self))
                &&& final(self).retransmit@ == old(self).retransmit@
                &&& final(self).pending@.len() == old(self).pending@.len() + 1
                &&& final(self).pending@.drop_last() == old(self).pending@
                &&& is_egress_req(
                    *old(self),
                    wire::FLG_ACK,
                    Seq::<u8>::empty(),
                    final(self).pending@.last(),
                )
            },
            // An acceptable reset closes the connection outright.
            (old(self).state != State::SynSent && !(old(self).state == State::SynReceived
                && wire::has_syn(m.flags)) && window_acceptable(*old(self), m) && wire::has_rst(
                m.flags,
            )) ==> final(self).state == State::Closed && final(self).pending@ == old(self).pending@,
            // A stray SYN in a synchronised state closes and resets.
            (old(self).state != State::SynSent && !(old(self).state == State::SynReceived
                && wire::has_syn(m.flags)) && window_acceptable(*old(self), m) && !wire::has_rst(
                m.flags,
            ) && wire::has_syn(m.flags)) ==> {
                &&& final(self).state == State::Closed
                &&& final(self).pending@.len() == old(self).pending@.len() + 1
                &&& is_rst_reply(
                    m,
                    wire::has_ack(m.flags),
                    old(self).local,
                    old(self).foreign,
                    final(self).pending@.last(),
                )
            },
            // A valid first acknowledgment in SYN-RECEIVED marks a
            // parented child ready for its listener's backlog; nothing
            // else touches the flag.
            completes_handshake(*old(self), m) ==> final(self).accept_ready == (old(self).parent is Some || old(self).accept_ready),
            completes_handshake(*old(self), m) && !wire::has_fin(m.flags) ==> final(self).state
                == State::Established,
            (completes_handshake(*old(self), m) && !wire::has_fin(m.flags) && payload@.len() == 0)
                ==> final(self).pending@ == old(self).pending@,
            !completes_handshake(*old(self), m) ==> final(self).accept_ready == old(self).accept_ready,
            // In-order data on an established connection is buffered up
            // to the free receive space, the window shrinks accordingly,
            // and exactly one acknowledgment of the new edge goes out.
            (old(self).state == State::Established && !wire::has_syn(m.flags) && !wire::has_rst(
                m.flags,
            ) && wire::has_ack(m.flags) && window_acceptable(*old(self), m) && m.seq == old(self).rcv_nxt && payload@.len() > 0 && !wire::has_fin(m.flags)) ==> {
                &&& final(self).state == State::Established
                &&& final(self).rx_buf@ == old(self).rx_buf@ + payload@.take(
                    vstd::math::min(
                        old(self).rx_capacity - old(self).rx_buf@.len(),
                        payload@.len() as int,
                    ),
                )
                &&& final(self).rcv_nxt == vstd::wrapping::u32_specs::wrapping_add(
                    old(self).rcv_nxt,
                    vstd::math::min(
                        old(self).rx_capacity - old(self).rx_buf@.len(),
                        payload@.len() as int,
                    ) as u32,
                )
                &&& final(self).rcv_wnd == final(self).rx_capacity - final(self).rx_buf@.len()
                &&& final(self).snd_nxt == old(self).snd_nxt
                &&& final(self).pending@.len() == old(self).pending@.len() + 1
                &&& final(self).pending@.drop_last() == old(self).pending@
                &&& final(self).pending@.last().flags == wire::FLG_ACK
                &&& final(self).pending@.last().seq == old(self).snd_nxt
                &&& final(self).pending@.last().ack == final(self).rcv_nxt
                &&& final(self).pending@.last().wnd == final(self).rcv_wnd
                &&& final(self).pending@.last().payload@.len() == 0
            },
            // A bare in-order FIN on an established connection moves to
            // CLOSE-WAIT and acknowledges past the FIN.
            (old(self).state == State::Established && !wire::has_syn(m.flags) && !wire::has_rst(
                m.flags,
            ) && wire::has_ack(m.flags) && window_acceptable(*old(self), m) && m.seq == old(self).rcv_nxt && payload@.len() == 0 && wire::has_fin(m.flags)) ==> {
                &&& final(self).state == State::CloseWait
                &&& final(self).rx_buf@ == old(self).rx_buf@
                &&& final(self).rcv_nxt == vstd::wrapping::u32_specs::wrapping_add(
                    old(self).rcv_nxt,
                    1,
                )
                &&& final(self).pending@.len() == old(self).pending@.len() + 1
                &&& final(self).pending@.last().flags == wire::FLG_ACK
                &&& final(self).pending@.last().seq == old(self).snd_nxt
                &&& final(self).pending@.last().ack == final(self).rcv_nxt
            },
    {
        if self.handle_syn_sent(m, now_ms) {
            return ;
        }
        if self.handle_syn_received_duplicate(m, now_ms) {
            return ;
        }
        if !self.validate_window(m, now_ms) {
            return ;
        }

        if wire::rst_set(m.flags) {
            self.state = State::Closed;
            return ;
        }

        if wire::syn_set(m.flags) {
            self.state = State::Closed;
            self.send_rst_for_segment(m, wire::ack_set(m.flags));
            return ;
        }

        if !self.handle_ack(m, now_ms) {
            return ;
        }

        let send_ack_data = self.handle_payload(m, payload);
        let send_ack_fin = self.handle_fin(m, payload.len(), now_ms);

        if send_ack_data || send_ack_fin {
            let empty: &[u8] = &[];
            let _ = self.egress(wire::FLG_ACK, empty, now_ms);
        }
        proof {
            // a FIN right at the receive edge always advances it
            assert(seq_lt(
                old(self).rcv_nxt,
                vstd::wrapping::u32_specs::wrapping_add(old(self).rcv_nxt, 1),
            ));
        }
    }
}

} // verus!

verus! {

/// The metadata of the segment held in a TCP buffer: sequence numbers,
/// window, flags, and the segment length in sequence space.
pub open spec fn seg_meta_of(s: Seq<u8>) -> SegMeta {
    SegMeta {
        seq: crate::util::be32_at(s, 4) as u32,
        ack: crate::util::be32_at(s, 8) as u32,
        len: ((s.len() - wire::header_len_of(s)) + (if wire::has_syn(s[13]) {
            1int
        } else {
            0
        }) + (if wire::has_fin(s[13]) {
            1int
        } else {
            0
        })) as u32,
        wnd: crate::util::be16_at(s, 14) as u16,
        flags: s[13],
    }
}

/// The TCP engine: a fixed table of sockets and the ephemeral-port
/// cursor.
pub struct Tcp {
    pub sockets: SocketSet<Socket>,
    pub next_port: u16,
}

impl Tcp {
    /// Every occupied slot holds a well-formed socket.
    pub open spec fn wf(self) -> bool {
        forall|i: int|
            0 <= i < self.sockets@.len() && self.sockets@[i] is Some ==> (#[trigger] self.sockets@[i])->0.wf()
    }

    /// A fresh engine with the fixed number of empty slots.
    pub fn new() -> (r: Self)
        ensures
            r.wf(),
            r.sockets@.len() == SOCKET_CAPACITY,
            forall|i: int| 0 <= i < r.sockets@.len() ==> r.sockets@[i] is None,
            r.next_port == EPHEMERAL_PORT_MIN,
    {
        Tcp { sockets: SocketSet::new(SOCKET_CAPACITY), next_port: EPHEMERAL_PORT_MIN }
    }

    /// Claim a free slot for a fresh closed socket and return its index.
    pub fn socket_alloc(&mut self) -> (r: Result<usize, NetError>)
        requires
            old(self).wf(),
        ensures
            final(self).wf(),
            final(self).sockets@.len() == old(self).sockets@.len(),
            match r {
                Ok(i) => {
                    &&& i < old(self).sockets@.len()
                    &&& old(self).sockets@[i as int] is None
                    &&& final(self).sockets@[i as int] is Some
                    &&& final(self).sockets@[i as int]->0.state == State::Closed
                    &&& forall|j: int|
                        0 <= j < old(self).sockets@.len() && j != i ==> final(self).sockets@[j]
                            == old(self).sockets@[j]
                },
                Err(e) => {
                    &&& e == NetError::NoSocketAvailable
                    &&& final(self).sockets@ == old(self).sockets@
                },
            },
    {
        let socket = Socket::new(RX_BUFFER_SIZE, TX_BUFFER_SIZE);
        let handle = self.sockets.allocate(socket)?;
        Ok(handle.index())
    }

    /// Release a slot; the index may later be handed out again.
    pub fn socket_free(&mut self, index: usize) -> (r: Result<(), NetError>)
        requires
            old(self).wf(),
        ensures
            final(self).wf(),
            match r {
                Ok(()) => {
                    &&& index < old(self).sockets@.len()
                    &&& old(self).sockets@[index as int] is Some
                    &&& final(self).sockets@ == old(self).sockets@.update(
                        index as int,
                        None::<Socket>,
                    )
                },
                Err(e) => {
                    &&& e == NetError::InvalidSocketIndex
                    &&& final(self).sockets@ == old(self).sockets@
                },
            },
    {
        self.sockets.free(SocketHandle::new(index))
    }

    /// Borrow the socket at `index`.
    pub fn socket_get(&self, index: usize) -> (r: Result<&Socket, NetError>)
        ensures
            match r {
                Ok(s) => index < self.sockets@.len() && self.sockets@[index as int] == Some(*s),
                Err(e) => (e == NetError::InvalidSocketIndex && index >= self.sockets@.len()) || (e
                    == NetError::InvalidSocketState && index < self.sockets@.len()
                    && self.sockets@[index as int] is None),
            },
    {
        self.sockets.get(SocketHandle::new(index))
    }

    /// Mutably borrow the socket at `index`.
    pub fn socket_get_mut(&mut self, index: usize) -> (r: Result<&mut Socket, NetError>)
        ensures
            match r {
                Ok(s) => {
                    &&& index < old(self).sockets@.len()
                    &&& old(self).sockets@[index as int] == Some(*s)
                    &&& final(self).sockets@ == old(self).sockets@.update(
                        index as int,
                        Some(*final(s)),
                    )
                },
                Err(e) => {
                    &&& final(self).sockets@ == old(self).sockets@
                    &&& (e == NetError::InvalidSocketIndex && index >= old(self).sockets@.len())
                        || (e == NetError::InvalidSocketState && index < old(self).sockets@.len()
                        && old(self).sockets@[index as int] is None)
                },
            },
    {
        self.sockets.get_mut(SocketHandle::new(index))
    }

    /// Pop the oldest fully-established child off a listen socket's
    /// backlog and detach it: the backlog loses exactly its front and the
    /// child's parent link is cleared.  `WouldBlock` when none waits.
    pub fn socket_accept(&mut self, listen_index: usize) -> (r: Result<usize, NetError>)
        requires
            old(self).wf(),
        ensures
            final(self).wf(),
            final(self).sockets@.len() == old(self).sockets@.len(),
            // success is owed whenever an established child waits on a
            // live slot
            (listen_index < old(self).sockets@.len() && old(self).sockets@[listen_index as int] is Some
                && old(self).sockets@[listen_index as int]->0.backlog@.len() > 0 && old(self).sockets@[listen_index as int]->0.backlog@[0] < old(self).sockets@.len() && old(self).sockets@[old(self).sockets@[listen_index as int]->0.backlog@[0] as int] is Some)
                ==> r is Ok,
            match r {
                Ok(child) => {
                    &&& listen_index < old(self).sockets@.len()
                    &&& old(self).sockets@[listen_index as int] is Some
                    &&& old(self).sockets@[listen_index as int]->0.backlog@.len() > 0
                    &&& child == old(self).sockets@[listen_index as int]->0.backlog@[0]
                    &&& child < old(self).sockets@.len()
                    &&& old(self).sockets@[child as int] is Some
                    &&& final(self).sockets@[child as int] is Some
                    &&& final(self).sockets@[child as int]->0.parent is None
                    &&& (child != listen_index ==> {
                        &&& final(self).sockets@[listen_index as int] is Some
                        &&& same_but_backlog(
                            old(self).sockets@[listen_index as int]->0,
                            final(self).sockets@[listen_index as int]->0,
                        )
                        &&& final(self).sockets@[listen_index as int]->0.backlog@ == old(self).sockets@[listen_index as int]->0.backlog@.skip(1)
                        &&& same_but_parent(
                            old(self).sockets@[child as int]->0,
                            final(self).sockets@[child as int]->0,
                        )
                    })
                    &&& (child == listen_index ==> final(self).sockets@[child as int]->0.backlog@
                        == old(self).sockets@[listen_index as int]->0.backlog@.skip(1))
                    &&& forall|j: int|
                        0 <= j < old(self).sockets@.len() && j != listen_index && j != child
                            ==> final(self).sockets@[j] == old(self).sockets@[j]
                },
                Err(e) => {
                    &&& (e == NetError::WouldBlock ==> (listen_index < old(self).sockets@.len()
                        && old(self).sockets@[listen_index as int] is Some && old(self).sockets@[listen_index as int]->0.backlog@.len() == 0 && final(self).sockets@.len() == old(self).sockets@.len() && (forall|j: int|
                        0 <= j < old(self).sockets@.len() && j != listen_index ==> final(self).sockets@[j] == old(self).sockets@[j]) && final(self).sockets@[listen_index as int] is Some && unchanged(
                        old(self).sockets@[listen_index as int]->0,
                        final(self).sockets@[listen_index as int]->0,
                    )))
                    &&& (e == NetError::InvalidSocketIndex ==> (listen_index >= old(self).sockets@.len() || (old(self).sockets@[listen_index as int] is Some && old(self).sockets@[listen_index as int]->0.backlog@.len() > 0 && old(self).sockets@[listen_index as int]->0.backlog@[0] >= old(self).sockets@.len())))
                    &&& (e == NetError::InvalidSocketState ==> ((listen_index < old(self).sockets@.len() && old(self).sockets@[listen_index as int] is None) || (old(self).sockets@[listen_index as int] is Some && old(self).sockets@[listen_index as int]->0.backlog@.len() > 0 && old(self).sockets@[listen_index as int]->0.backlog@[0] < old(self).sockets@.len() && old(self).sockets@[old(self).sockets@[listen_index as int]->0.backlog@[0] as int] is None)))
                    &&& (e == NetError::WouldBlock || e == NetError::InvalidSocketIndex || e
                        == NetError::InvalidSocketState)
                },
            },
    {
        let listen_socket = self.sockets.get_mut(SocketHandle::new(listen_index))?;
        let child_index = match listen_socket.backlog.pop_front() {
            Some(i) => i,
            None => {
                return Err(NetError::WouldBlock);
            },
        };
        proof {
            assert(self.wf());
        }
        let child_socket = self.sockets.get_mut(SocketHandle::new(child_index))?;
        child_socket.parent = None;
        Ok(child_index)
    }

    /// The next ephemeral port: a cursor over the dynamic range that
    /// wraps back to its start.
    pub fn next_ephemeral_port(&mut self) -> (r: u16)
        ensures
            EPHEMERAL_PORT_MIN <= r <= EPHEMERAL_PORT_MAX,
            final(self).sockets@ == old(self).sockets@,
            // the cursor hands out its current position and advances, so
            // consecutive calls return distinct ports
            r == (if old(self).next_port < EPHEMERAL_PORT_MIN {
                EPHEMERAL_PORT_MIN
            } else {
                old(self).next_port
            }),
            final(self).next_port == (if r == EPHEMERAL_PORT_MAX {
                EPHEMERAL_PORT_MIN
            } else {
                (r + 1) as u16
            }),
    {
        let port = self.next_port;
        if port < EPHEMERAL_PORT_MIN || port == EPHEMERAL_PORT_MAX {
            self.next_port = EPHEMERAL_PORT_MIN;
            if port < EPHEMERAL_PORT_MIN {
                self.next_port = EPHEMERAL_PORT_MIN + 1;
                return EPHEMERAL_PORT_MIN;
            }
            return port;
        }
        self.next_port = port + 1;
        port
    }

    /// Find the socket a segment belongs to: an exact four-tuple match
    /// wins; otherwise the last listening socket that covers the local
    /// endpoint among those scanned.
    pub fn find_sockets(&self, local: &IpEndpoint, foreign: &IpEndpoint) -> (r: (
        Option<usize>,
        Option<usize>,
    ))
        ensures
            match r.0 {
                Some(i) => i < self.sockets@.len() && self.sockets@[i as int] is Some
                    && matches_established_spec(self.sockets@[i as int]->0, *local, *foreign)
                    && forall|j: int|
                    0 <= j < i && self.sockets@[j] is Some ==> !matches_established_spec(
                        (#[trigger] self.sockets@[j])->0,
                        *local,
                        *foreign,
                    ),
                None => forall|i: int|
                    0 <= i < self.sockets@.len() && self.sockets@[i] is Some
                        ==> !matches_established_spec(
                        (#[trigger] self.sockets@[i])->0,
                        *local,
                        *foreign,
                    ),
            },
            match r.1 {
                Some(i) => i < self.sockets@.len() && self.sockets@[i as int] is Some
                    && matches_listen_spec(self.sockets@[i as int]->0, *local),
                None => r.0 is Some || forall|i: int|
                    0 <= i < self.sockets@.len() && self.sockets@[i] is Some
                        ==> !matches_listen_spec((#[trigger] self.sockets@[i])->0, *local),
            },
    {
        let mut established_idx: Option<usize> = None;
        let mut listen_idx: Option<usize> = None;
        let n = self.sockets.capacity();
        let mut i: usize = 0;
        while i < n
            invariant
                i <= n,
                n == self.sockets@.len(),
                established_idx is None,
                forall|j: int|
                    0 <= j < i && self.sockets@[j] is Some ==> !matches_established_spec(
                        (#[trigger] self.sockets@[j])->0,
                        *local,
                        *foreign,
                    ),
                match listen_idx {
                    Some(k) => k < self.sockets@.len() && self.sockets@[k as int] is Some
                        && matches_listen_spec(self.sockets@[k as int]->0, *local),
                    None => forall|j: int|
                        0 <= j < i && self.sockets@[j] is Some ==> !matches_listen_spec(
                            (#[trigger] self.sockets@[j])->0,
                            *local,
                        ),
                },
            decreases n - i,
        {
            match self.sockets.get(SocketHandle::new(i)) {
                Ok(socket) => {
                    if socket.matches_established(local, foreign) {
                        established_idx = Some(i);
                        return (established_idx, listen_idx);
                    }
                    if socket.matches_listen(local) {
                        listen_idx = Some(i);
                    }
                },
                Err(_) => {},
            }
            i = i + 1;
        }
        (established_idx, listen_idx)
    }
}

} // verus!

verus! {

impl Tcp {
    /// The reset owed to a segment that matches no socket at all: exactly
    /// one RST-shaped reply, unless the segment itself was a reset.
    pub fn send_rst_response(
        &self,
        local: &IpEndpoint,
        foreign: &IpEndpoint,
        m: SegMeta,
        sends: &mut Vec<SendRequest>,
    )
        ensures
            wire::has_rst(m.flags) ==> final(sends)@ == old(sends)@,
            !wire::has_rst(m.flags) ==> {
                &&& final(sends)@.len() == old(sends)@.len() + 1
                &&& final(sends)@.drop_last() == old(sends)@
                &&& is_rst_reply(
                    m,
                    wire::has_ack(m.flags),
                    *local,
                    *foreign,
                    final(sends)@.last(),
                )
            },
    {
        if wire::rst_set(m.flags) {
            return ;
        }

        if !wire::ack_set(m.flags) {
            sends.push(
                SendRequest {
                    seq: 0,
                    ack: m.seq.wrapping_add(m.len),
                    flags: wire::FLG_RST + wire::FLG_ACK,
                    wnd: 0,
                    payload: Vec::new(),
                    local: *local,
                    foreign: *foreign,
                },
            );
        } else {
            sends.push(
                SendRequest {
                    seq: m.ack,
                    ack: 0,
                    flags: wire::FLG_RST,
                    wnd: 0,
                    payload: Vec::new(),
                    local: *local,
                    foreign: *foreign,
                },
            );
        }
    }

    /// Run a segment on the socket that owns its four-tuple, drain what
    /// it queued, and — when the segment completed a child's handshake —
    /// push the child onto its listener's backlog, which grows by exactly
    /// one.
    pub fn handle_on_socket(
        &mut self,
        index: usize,
        m: SegMeta,
        payload: &[u8],
        now_ms: u64,
        sends: &mut Vec<SendRequest>,
    )
        requires
            old(self).wf(),
            index < old(self).sockets@.len(),
            old(self).sockets@[index as int] is Some,
            payload@.len() <= 0xffff,
        ensures
            final(self).wf(),
            final(self).sockets@.len() == old(self).sockets@.len(),
            old(sends)@.is_prefix_of(final(sends)@),
            // No other socket changes, except that at most one listener
            // gains exactly this child at the tail of its backlog.
            forall|j: int|
                0 <= j < old(self).sockets@.len() && j != index ==> (final(self).sockets@[j]
                    == old(self).sockets@[j] || ((#[trigger] old(self).sockets@[j]) is Some
                    && final(self).sockets@[j] is Some
                    && final(self).sockets@[j]->0.backlog@ == old(self).sockets@[j]->0.backlog@.push(index))),
            // The positive direction: a completed handshake of a
            // parented child lands the child on its listener's backlog.
            ({
                let child = old(self).sockets@[index as int]->0;
                let p = child.parent->0 as int;
                (completes_handshake(child, m) && child.parent is Some && p != index && 0 <= p
                    < old(self).sockets@.len() && old(self).sockets@[p] is Some) ==> (final(self).sockets@[p] is Some && final(self).sockets@[p]->0.backlog@ == old(self).sockets@[p]->0.backlog@.push(index))
            }),
            // the segment's owner is left drained, and a completed
            // handshake leaves it established with the flag consumed
            final(self).sockets@[index as int] is Some,
            final(self).sockets@[index as int]->0.pending@.len() == 0,
            final(self).sockets@[index as int]->0.accept_ready == false,
            (completes_handshake(old(self).sockets@[index as int]->0, m) && !wire::has_fin(
                m.flags,
            )) ==> final(self).sockets@[index as int]->0.state == State::Established,
            // without a completed handshake or a flag already raised, no
            // other socket changes at all
            (!completes_handshake(old(self).sockets@[index as int]->0, m) && !old(self).sockets@[index as int]->0.accept_ready) ==> forall|j: int|
                0 <= j < old(self).sockets@.len() && j != index ==> final(self).sockets@[j]
                    == old(self).sockets@[j],
            // the handshake-completing bare acknowledgment drains exactly
            // what the child already held queued, in order
            (completes_handshake(old(self).sockets@[index as int]->0, m) && !wire::has_fin(
                m.flags,
            ) && payload@.len() == 0) ==> final(sends)@ == old(sends)@ + old(self).sockets@[index as int]->0.pending@,
            // an out-of-window non-RST segment drains exactly the owner's
            // backlog of output plus one bare acknowledgment
            (old(self).sockets@[index as int]->0.state != State::SynSent && !(old(self).sockets@[index as int]->0.state == State::SynReceived && wire::has_syn(m.flags))
                && !window_acceptable(old(self).sockets@[index as int]->0, m) && !wire::has_rst(
                m.flags,
            )) ==> {
                &&& final(sends)@.len() == old(sends)@.len() + old(self).sockets@[index as int]->0.pending@.len() + 1
                &&& final(sends)@.last().flags == wire::FLG_ACK
                &&& final(sends)@.last().seq == old(self).sockets@[index as int]->0.snd_nxt
                &&& final(sends)@.last().ack == old(self).sockets@[index as int]->0.rcv_nxt
                &&& final(sends)@.last().wnd == old(self).sockets@[index as int]->0.rcv_wnd
                &&& final(sends)@.last().payload@.len() == 0
            },
    {
        let ghost s0 = old(self).sockets@[index as int]->0;
        let mut accept_parent: Option<usize> = None;
        match self.sockets.get_mut(SocketHandle::new(index)) {
            Ok(socket) => {
                socket.handle_segment(m, payload, now_ms);
                socket.drain_pending(sends);
                if socket.accept_ready {
                    socket.accept_ready = false;
                    accept_parent = socket.parent;
                }
            },
            Err(_) => {
                return ;
            },
        }
        proof {
            assert(self.wf());
        }
        let ghost mid = self.sockets@;
        match accept_parent {
            Some(parent_idx) => {
                if parent_idx != index {
                    match self.sockets.get_mut(SocketHandle::new(parent_idx)) {
                        Ok(parent) => {
                            parent.backlog.push_back(index);
                            proof {
                                assert(self.sockets@[parent_idx as int] is Some);
                                assert(self.sockets@[parent_idx as int]->0.backlog@
                                    == mid[parent_idx as int]->0.backlog@.push(index));
                            }
                        },
                        Err(_) => {},
                    }
                    proof {
                        assert(self.wf());
                    }
                }
            },
            None => {},
        }
    }
}

} // verus!

verus! {

impl Tcp {
    /// A segment for a listening socket: drop resets; answer stray
    /// acknowledgments with a reset; on SYN, allocate a child in
    /// SYN-RECEIVED seeded from the listener's port and queue its
    /// SYN+ACK.
    pub fn handle_on_listen(
        &mut self,
        listen_index: usize,
        local: &IpEndpoint,
        foreign: &IpEndpoint,
        m: SegMeta,
        now_ms: u64,
        sends: &mut Vec<SendRequest>,
    ) -> (r: Result<(), NetError>)
        requires
            old(self).wf(),
        ensures
            final(self).wf(),
            old(sends)@.is_prefix_of(final(sends)@),
            wire::has_rst(m.flags) ==> r is Ok && final(sends)@ == old(sends)@ && final(self).sockets@ == old(self).sockets@,
            !wire::has_rst(m.flags) && wire::has_ack(m.flags) ==> r is Ok && final(self).sockets@
                == old(self).sockets@ && final(sends)@.len() == old(sends)@.len() + 1 && final(sends)@.last().seq == m.seq && final(sends)@.last().ack == 0 && final(sends)@.last().flags
                == wire::FLG_RST && final(sends)@.last().wnd == 0 && final(sends)@.last().payload@.len() == 0,
            !wire::has_rst(m.flags) && !wire::has_ack(m.flags) && !wire::has_syn(m.flags) ==> r
                is Ok && final(sends)@ == old(sends)@ && final(self).sockets@ == old(self).sockets@,
            !wire::has_rst(m.flags) && !wire::has_ack(m.flags) && wire::has_syn(m.flags) ==> {
                match r {
                    Ok(()) => {
                        &&& final(self).sockets@.len() == old(self).sockets@.len()
                        &&& exists|c: int|
                            {
                                &&& 0 <= c < old(self).sockets@.len()
                                &&& old(self).sockets@[c] is None
                                &&& (#[trigger] final(self).sockets@[c]) is Some
                                &&& final(self).sockets@[c]->0.state == State::SynReceived
                                &&& final(self).sockets@[c]->0.local == *local
                                &&& final(self).sockets@[c]->0.foreign == *foreign
                                &&& final(self).sockets@[c]->0.irs == m.seq
                                &&& final(self).sockets@[c]->0.rcv_nxt
                                    == vstd::wrapping::u32_specs::wrapping_add(m.seq, 1)
                                &&& final(self).sockets@[c]->0.iss == initial_iss_spec(local.port)
                                &&& final(self).sockets@[c]->0.snd_una == initial_iss_spec(
                                    local.port,
                                )
                                &&& final(self).sockets@[c]->0.snd_nxt
                                    == vstd::wrapping::u32_specs::wrapping_add(
                                    initial_iss_spec(local.port),
                                    1,
                                )
                                &&& final(self).sockets@[c]->0.rx_capacity == RX_BUFFER_SIZE
                                &&& final(self).sockets@[c]->0.tx_capacity == TX_BUFFER_SIZE
                                &&& final(self).sockets@[c]->0.rcv_wnd == final(self).sockets@[c]->0.rx_capacity
                                &&& final(self).sockets@[c]->0.rx_buf@.len() == 0
                                &&& final(self).sockets@[c]->0.pending@.len() == 0
                                &&& final(self).sockets@[c]->0.parent == Some(listen_index)
                                &&& forall|j: int|
                                    0 <= j < old(self).sockets@.len() && j != c ==> final(self).sockets@[j] == old(self).sockets@[j]
                            }
                        &&& final(sends)@.len() == old(sends)@.len() + 1
                        &&& final(sends)@.last().flags == (wire::FLG_SYN + wire::FLG_ACK) as u8
                        &&& final(sends)@.last().seq == initial_iss_spec(local.port)
                        &&& final(sends)@.last().ack == vstd::wrapping::u32_specs::wrapping_add(
                            m.seq,
                            1,
                        )
                    },
                    Err(e) => e == NetError::NoSocketAvailable && final(sends)@ == old(sends)@,
                }
            },
    {
        if wire::rst_set(m.flags) {
            return Ok(());
        }

        if wire::ack_set(m.flags) {
            sends.push(
                SendRequest {
                    seq: m.seq,
                    ack: 0,
                    flags: wire::FLG_RST,
                    wnd: 0,
                    payload: Vec::new(),
                    local: *local,
                    foreign: *foreign,
                },
            );
            return Ok(());
        }

        if wire::syn_set(m.flags) {
            let mut child = Socket::new(RX_BUFFER_SIZE, TX_BUFFER_SIZE);
            child.parent = Some(listen_index);
            child.local = *local;
            child.foreign = *foreign;
            child.rcv_wnd = child.rx_capacity as u16;
            child.rcv_nxt = m.seq.wrapping_add(1);
            child.irs = m.seq;
            child.iss = initial_iss(local.port);
            child.snd_una = child.iss;
            child.snd_nxt = child.iss.wrapping_add(1);
            child.state = State::SynReceived;

            let handle = match self.sockets.allocate(child) {
                Ok(h) => h,
                Err(e) => {
                    return Err(e);
                },
            };
            match self.sockets.get_mut(handle) {
                Ok(child_ref) => {
                    let empty: &[u8] = &[];
                    let _ = child_ref.egress(wire::FLG_SYN + wire::FLG_ACK, empty, now_ms);
                },
                Err(_) => {},
            }
            proof {
                assert(self.wf());
            }
            // the child's queued SYN+ACK travels with the caller's list
            match self.sockets.get_mut(handle) {
                Ok(child_ref) => {
                    child_ref.drain_pending(sends);
                },
                Err(_) => {},
            }
            proof {
                assert(self.wf());
                let c = handle.index_spec() as int;
                assert(final(self).sockets@[c] is Some);
                assert(final(self).sockets@[c]->0.state == State::SynReceived);
                assert(final(self).sockets@[c]->0.iss == initial_iss_spec(local.port));
                assert(final(self).sockets@[c]->0.parent == Some(listen_index));
                assert(forall|j: int|
                    0 <= j < old(self).sockets@.len() && j != c ==> final(self).sockets@[j] == old(self).sockets@[j]);
                assert(final(sends)@.len() == old(sends)@.len() + 1);
                assert(final(sends)@.last().flags == (wire::FLG_SYN + wire::FLG_ACK) as u8);
                assert(final(sends)@.last().seq == initial_iss_spec(local.port));
            }
        }

        Ok(())
    }
}

} // verus!

verus! {

impl Tcp {
    /// Segment arrival from the IP layer: parse and checksum the buffer,
    /// find the owning socket, run the state machine, and hand back the
    /// segments to emit once the table is released.  A segment matching
    /// no socket draws exactly one RST-shaped reply.
    pub fn ingress(&mut self, src_ip: IpAddr, dst_ip: IpAddr, data: &[u8], now_ms: u64) -> (r:
        Result<Vec<SendRequest>, NetError>)
        requires
            old(self).wf(),
            data@.len() <= 0xffff,
        ensures
            final(self).wf(),
            match r {
                Ok(sends) => {
                    &&& wire::tcp_buffer_ok(data@)
                    &&& wire::tcp_checksum_fold(src_ip, dst_ip, data@) == 0xffff
                    &&& ({
                        let m = seg_meta_of(data@);
                        let local = IpEndpoint {
                            addr: dst_ip,
                            port: crate::util::be16_at(data@, 2) as u16,
                        };
                        let foreign = IpEndpoint {
                            addr: src_ip,
                            port: crate::util::be16_at(data@, 0) as u16,
                        };
                        &&& (((forall|i: int|
                            0 <= i < old(self).sockets@.len() && old(self).sockets@[i] is Some
                                ==> !matches_established_spec(
                                (#[trigger] old(self).sockets@[i])->0,
                                local,
                                foreign,
                            )) && (forall|i: int|
                            0 <= i < old(self).sockets@.len() && old(self).sockets@[i] is Some
                                ==> !matches_listen_spec(
                                (#[trigger] old(self).sockets@[i])->0,
                                local,
                            )) && !wire::has_rst(m.flags)) ==> (sends@.len() == 1 && is_rst_reply(
                            m,
                            wire::has_ack(m.flags),
                            local,
                            foreign,
                            sends@[0],
                        )))
                        &&& ((forall|i: int|
                            0 <= i < old(self).sockets@.len() && old(self).sockets@[i] is Some
                                ==> !matches_established_spec(
                                (#[trigger] old(self).sockets@[i])->0,
                                local,
                                foreign,
                            )) && (forall|i: int|
                            0 <= i < old(self).sockets@.len() && old(self).sockets@[i] is Some
                                ==> !matches_listen_spec(
                                (#[trigger] old(self).sockets@[i])->0,
                                local,
                            ))) ==> (final(self).sockets@ == old(self).sockets@ && (
                        wire::has_rst(m.flags) ==> sends@.len() == 0))
                        // an out-of-window non-RST segment for a drained,
                        // synchronised connection draws exactly one bare
                        // acknowledgment of its current receive edge
                        &&& (forall|i: int|
                            (0 <= i < old(self).sockets@.len() && old(self).sockets@[i] is Some
                                && matches_established_spec(
                                (#[trigger] old(self).sockets@[i])->0,
                                local,
                                foreign,
                            ) && (forall|j: int|
                                0 <= j < i && old(self).sockets@[j] is Some
                                    ==> !matches_established_spec(
                                    (#[trigger] old(self).sockets@[j])->0,
                                    local,
                                    foreign,
                                )) && old(self).sockets@[i]->0.pending@.len() == 0 && old(self).sockets@[i]->0.state != State::SynSent && !(old(self).sockets@[i]->0.state
                                == State::SynReceived && wire::has_syn(m.flags))
                                && !window_acceptable(old(self).sockets@[i]->0, m)
                                && !wire::has_rst(m.flags)) ==> (sends@.len() == 1 && sends@[0].flags == wire::FLG_ACK && sends@[0].seq == old(self).sockets@[i]->0.snd_nxt
                                && sends@[0].ack == old(self).sockets@[i]->0.rcv_nxt && sends@[0].payload@.len() == 0))
                    })
                },
                Err(e) => {
                    &&& (!wire::tcp_buffer_ok(data@) ==> (e == NetError::PacketTooShort && data@.len()
                        < wire::HEADER_LEN) || (e == NetError::InvalidHeaderLen && data@.len()
                        >= wire::HEADER_LEN))
                    &&& (wire::tcp_buffer_ok(data@) && wire::tcp_checksum_fold(src_ip, dst_ip, data@)
                        != 0xffff ==> e == NetError::ChecksumError)
                    &&& (wire::tcp_buffer_ok(data@) && wire::tcp_checksum_fold(src_ip, dst_ip, data@)
                        == 0xffff ==> e == NetError::NoSocketAvailable)
                },
            },
            // a segment that matches nothing still succeeds: the reset is
            // the whole response
            (wire::tcp_buffer_ok(data@) && wire::tcp_checksum_fold(src_ip, dst_ip, data@)
                == 0xffff && (forall|i: int|
                0 <= i < old(self).sockets@.len() && old(self).sockets@[i] is Some
                    ==> !matches_established_spec(
                    (#[trigger] old(self).sockets@[i])->0,
                    IpEndpoint { addr: dst_ip, port: crate::util::be16_at(data@, 2) as u16 },
                    IpEndpoint { addr: src_ip, port: crate::util::be16_at(data@, 0) as u16 },
                )) && (forall|i: int|
                0 <= i < old(self).sockets@.len() && old(self).sockets@[i] is Some
                    ==> !matches_listen_spec(
                    (#[trigger] old(self).sockets@[i])->0,
                    IpEndpoint { addr: dst_ip, port: crate::util::be16_at(data@, 2) as u16 },
                ))) ==> r is Ok,
            // A SYN that reaches only a listening socket opens a child in
            // SYN-RECEIVED and answers with its SYN+ACK, seeded from the
            // listener's port.
            ({
                wire::tcp_buffer_ok(data@) && wire::tcp_checksum_fold(src_ip, dst_ip, data@)
                    == 0xffff && wire::has_syn(data@[13]) && !wire::has_rst(data@[13])
                    && !wire::has_ack(data@[13]) && (forall|i: int|
                    0 <= i < old(self).sockets@.len() && old(self).sockets@[i] is Some
                        ==> !matches_established_spec(
                        (#[trigger] old(self).sockets@[i])->0,
                        IpEndpoint { addr: dst_ip, port: crate::util::be16_at(data@, 2) as u16 },
                        IpEndpoint { addr: src_ip, port: crate::util::be16_at(data@, 0) as u16 },
                    )) && (exists|i: int|
                    0 <= i < old(self).sockets@.len() && old(self).sockets@[i] is Some
                        && matches_listen_spec(
                        (#[trigger] old(self).sockets@[i])->0,
                        IpEndpoint { addr: dst_ip, port: crate::util::be16_at(data@, 2) as u16 },
                    )) ==> match r {
                    Ok(sends) => {
                        &&& sends@.len() == 1
                        &&& sends@[0].flags == (wire::FLG_SYN + wire::FLG_ACK) as u8
                        &&& sends@[0].seq == initial_iss_spec(
                            crate::util::be16_at(data@, 2) as u16,
                        )
                        &&& sends@[0].ack == vstd::wrapping::u32_specs::wrapping_add(
                            crate::util::be32_at(data@, 4) as u32,
                            1,
                        )
                    },
                    Err(e) => e == NetError::NoSocketAvailable,
                }
            }),
    {
        let packet = match wire::Packet::new_checked(data) {
            Ok(p) => p,
            Err(e) => {
                return Err(e);
            },
        };
        if !packet.verify_checksum(src_ip, dst_ip) {
            return Err(NetError::ChecksumError);
        }

        let flags = packet.flags();
        let payload = packet.payload();

        let mut seg_len: u32 = payload.len() as u32;
        if wire::syn_set(flags) {
            seg_len = seg_len + 1;
        }
        if wire::fin_set(flags) {
            seg_len = seg_len + 1;
        }

        let m = SegMeta {
            seq: packet.seq_number(),
            ack: packet.ack_number(),
            len: seg_len,
            wnd: packet.window_len(),
            flags,
        };
        proof {
            assert(m == seg_meta_of(data@));
        }

        let local = IpEndpoint::new(dst_ip, packet.dst_port());
        let foreign = IpEndpoint::new(src_ip, packet.src_port());

        let mut sends: Vec<SendRequest> = Vec::new();

        let (established_idx, listen_idx) = self.find_sockets(&local, &foreign);

        match established_idx {
            Some(index) => {
                self.handle_on_socket(index, m, payload, now_ms, &mut sends);
            },
            None => {
                match listen_idx {
                    Some(index) => {
                        match self.handle_on_listen(
                            index,
                            &local,
                            &foreign,
                            m,
                            now_ms,
                            &mut sends,
                        ) {
                            Ok(()) => {},
                            Err(e) => {
                                return Err(e);
                            },
                        }
                    },
                    None => {
                        self.send_rst_response(&local, &foreign, m, &mut sends);
                    },
                }
            },
        }

        Ok(sends)
    }

    /// One timer round over every socket: expire TIME-WAIT, drive the
    /// retransmit queue — an entry past the abort deadline leaves its
    /// socket CLOSED — flush what the windows allow, and collect every
    /// queued segment for emission.
    pub fn poll(&mut self, now_ms: u64) -> (sends: Vec<SendRequest>)
        requires
            old(self).wf(),
        ensures
            final(self).wf(),
            final(self).sockets@.len() == old(self).sockets@.len(),
            forall|i: int|
                (0 <= i < old(self).sockets@.len() && old(self).sockets@[i] is Some && exists|j: int|
                    0 <= j < old(self).sockets@[i]->0.retransmit@.len() && now_ms - (#[trigger] old(self).sockets@[i]->0.retransmit@[j]).first_at >= RETRANSMIT_DEADLINE_MS) ==> ((
                #[trigger] final(self).sockets@[i]) is Some && final(self).sockets@[i]->0.state
                    == State::Closed),
            // every queued segment was collected: no socket still holds
            // pending output when the round ends
            forall|i: int|
                0 <= i < final(self).sockets@.len() && (#[trigger] final(self).sockets@[i]) is Some
                    ==> final(self).sockets@[i]->0.pending@.len() == 0,
            // TIME-WAIT expires at its deadline
            forall|i: int|
                (0 <= i < old(self).sockets@.len() && (#[trigger] old(self).sockets@[i]) is Some
                    && old(self).sockets@[i]->0.state == State::TimeWait && old(self).sockets@[i]->0.timewait_deadline is Some && now_ms >= old(self).sockets@[i]->0.timewait_deadline->0)
                    ==> (final(self).sockets@[i] is Some && final(self).sockets@[i]->0.state
                    == State::Closed),
            // short of the abort deadline, the retransmit entries are
            // retried exactly as poll_retransmit states, with anything a
            // flush sent appended after them
            forall|i: int|
                (0 <= i < old(self).sockets@.len() && (#[trigger] old(self).sockets@[i]) is Some
                    && (forall|j: int|
                    0 <= j < old(self).sockets@[i]->0.retransmit@.len() ==> now_ms - (
                    #[trigger] old(self).sockets@[i]->0.retransmit@[j]).first_at
                        < RETRANSMIT_DEADLINE_MS)) ==> (final(self).sockets@[i] is Some && final(self).sockets@[i]->0.retransmit@.len() >= old(self).sockets@[i]->0.retransmit@.len()
                    && retransmit_updated(
                    old(self).sockets@[i]->0.retransmit@,
                    final(self).sockets@[i]->0.retransmit@.take(
                        old(self).sockets@[i]->0.retransmit@.len() as int,
                    ),
                    now_ms as int,
                )),
    {
        let mut sends: Vec<SendRequest> = Vec::new();
        let n = self.sockets.capacity();
        let mut i: usize = 0;
        while i < n
            invariant
                i <= n,
                self.wf(),
                n == self.sockets@.len(),
                self.sockets@.len() == old(self).sockets@.len(),
                forall|j: int| i <= j < n ==> self.sockets@[j] == old(self).sockets@[j],
                forall|k: int|
                    (0 <= k < i && old(self).sockets@[k] is Some && exists|j: int|
                        0 <= j < old(self).sockets@[k]->0.retransmit@.len() && now_ms - (
                        #[trigger] old(self).sockets@[k]->0.retransmit@[j]).first_at
                            >= RETRANSMIT_DEADLINE_MS) ==> ((#[trigger] self.sockets@[k]) is Some
                        && self.sockets@[k]->0.state == State::Closed),
                forall|k: int|
                    0 <= k < i && (#[trigger] self.sockets@[k]) is Some
                        ==> self.sockets@[k]->0.pending@.len() == 0,
                forall|k: int|
                    (0 <= k < i && (#[trigger] old(self).sockets@[k]) is Some && old(self).sockets@[k]->0.state == State::TimeWait && old(self).sockets@[k]->0.timewait_deadline is Some && now_ms >= old(self).sockets@[k]->0.timewait_deadline->0)
                        ==> (self.sockets@[k] is Some && self.sockets@[k]->0.state
                        == State::Closed),
                forall|k: int|
                    (0 <= k < i && (#[trigger] old(self).sockets@[k]) is Some && (forall|j: int|
                        0 <= j < old(self).sockets@[k]->0.retransmit@.len() ==> now_ms - (
                        #[trigger] old(self).sockets@[k]->0.retransmit@[j]).first_at
                            < RETRANSMIT_DEADLINE_MS)) ==> (self.sockets@[k] is Some
                        && self.sockets@[k]->0.retransmit@.len()
                        >= old(self).sockets@[k]->0.retransmit@.len() && retransmit_updated(
                        old(self).sockets@[k]->0.retransmit@,
                        self.sockets@[k]->0.retransmit@.take(
                            old(self).sockets@[k]->0.retransmit@.len() as int,
                        ),
                        now_ms as int,
                    )),
            decreases n - i,
        {
            match self.sockets.get_mut(SocketHandle::new(i)) {
                Ok(socket) => {
                    socket.poll_timewait(now_ms);
                    socket.poll_retransmit(now_ms);
                    socket.flush_tx(now_ms);
                    socket.drain_pending(&mut sends);
                },
                Err(_) => {},
            }
            proof {
                assert(self.wf());
            }
            i = i + 1;
        }
        sends
    }
}

} // verus!

verus! {

/// For every socket in the synchronised family, the advertised receive
/// window is exactly the free receive space.
pub proof fn lemma_receive_window(s: Socket)
    requires
        s.wf(),
        in_sync_family(s.state),
    ensures
        s.rcv_wnd == s.rx_capacity - s.rx_buf@.len(),
{
}

} // verus!
