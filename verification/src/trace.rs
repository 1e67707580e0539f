//! Per-subsystem trace flag bits.

use vstd::prelude::*;

verus! {

pub const TRACE_ETHER: u32 = 0x01;

pub const TRACE_ARP: u32 = 0x02;

pub const TRACE_IP: u32 = 0x04;

pub const TRACE_ICMP: u32 = 0x08;

pub const TRACE_UDP: u32 = 0x10;

pub const TRACE_TCP: u32 = 0x20;

pub const TRACE_DNS: u32 = 0x40;

pub const TRACE_DRIVER: u32 = 0x80;

/// A set of trace-subsystem bits.
#[derive(Debug, Clone, Copy, PartialEq, Eq, Structural)]
pub struct Flags(pub u32);

impl Flags {
    pub fn bits(&self) -> (r: u32)
        ensures
            r == self.0,
    {
        self.0
    }

    pub fn from_bits(bits: u32) -> (r: Self)
        ensures
            r.0 == bits,
    {
        Flags(bits)
    }

    /// Whether every bit of `other` is set in `self`.
    pub fn contains(&self, other: Flags) -> (r: bool)
        ensures
            r == ((self.0 & other.0) == other.0),
    {
        (self.0 & other.0) == other.0
    }
}

/// Whether a subsystem's tracing is switched on in the current register.
pub fn is_enabled(current: Flags, flag: Flags) -> (r: bool)
    ensures
        r == ((current.0 & flag.0) == flag.0),
{
    current.contains(flag)
}

} // verus!
