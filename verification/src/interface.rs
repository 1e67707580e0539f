//! An IP interface attached to a device.

use vstd::prelude::*;

use crate::err::NetError;
use crate::ip::IpAddr;

verus! {

/// The IPv4 address family number.
pub const AF_INET: u16 = 2;

/// An address, netmask and derived broadcast address on a device.
#[derive(Debug, Clone, Copy, PartialEq, Eq, Structural)]
pub struct NetInterface {
    pub family: u16,
    pub addr: IpAddr,
    pub netmask: IpAddr,
    pub broadcast: IpAddr,
}

impl NetInterface {
    /// A fresh interface; the broadcast address covers every host bit.
    pub fn new(addr: IpAddr, netmask: IpAddr) -> (r: Self)
        ensures
            r.family == AF_INET,
            r.addr == addr,
            r.netmask == netmask,
            r.broadcast.0 == (addr.0 | !netmask.0),
    {
        let broadcast = IpAddr(addr.0 | !netmask.0);
        NetInterface { family: AF_INET, addr, netmask, broadcast }
    }

    /// Whether this interface's subnet covers `dst`.
    pub fn covers(&self, dst: IpAddr) -> (r: bool)
        ensures
            r == iface_covers(*self, dst),
    {
        (dst.0 & self.netmask.0) == (self.addr.0 & self.netmask.0)
    }
}

/// Whether an interface's subnet covers `dst`.
pub open spec fn iface_covers(i: NetInterface, dst: IpAddr) -> bool {
    (dst.0 & i.netmask.0) == (i.addr.0 & i.netmask.0)
}

} // verus!
