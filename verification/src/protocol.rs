//! Ethertype numbers and the registry of enabled ingress protocols.

use vstd::prelude::*;

verus! {

/// The protocols an ethertype can name.
#[derive(Debug, Clone, Copy, PartialEq, Eq, Structural)]
pub enum ProtocolType {
    Ip,
    Arp,
    Ipv6,
}

impl ProtocolType {
    /// The wire ethertype of this protocol.
    pub open spec fn ethertype_spec(self) -> u16 {
        match self {
            ProtocolType::Ip => 0x0800,
            ProtocolType::Arp => 0x0806,
            ProtocolType::Ipv6 => 0x86DD,
        }
    }

    pub fn ethertype(&self) -> (r: u16)
        ensures
            r == self.ethertype_spec(),
    {
        match self {
            ProtocolType::Ip => 0x0800,
            ProtocolType::Arp => 0x0806,
            ProtocolType::Ipv6 => 0x86DD,
        }
    }

    /// The protocol an ethertype names, if any.
    pub fn from_ethertype(ethertype: u16) -> (r: Option<ProtocolType>)
        ensures
            match r {
                Some(p) => p.ethertype_spec() == ethertype,
                None => ethertype != 0x0800 && ethertype != 0x0806 && ethertype != 0x86DD,
            },
    {
        if ethertype == 0x0800 {
            Some(ProtocolType::Ip)
        } else if ethertype == 0x0806 {
            Some(ProtocolType::Arp)
        } else if ethertype == 0x86DD {
            Some(ProtocolType::Ipv6)
        } else {
            None
        }
    }
}

} // verus!
