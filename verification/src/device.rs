//! Network devices: type, flag bits, configuration and the device record.
//!
//! A device is a value object; what its driver would do on transmit is
//! decided by the stack from the device type, so no operations table is
//! carried here.

use vstd::prelude::*;

use crate::ether::MacAddr;
use crate::interface::NetInterface;

verus! {

/// What kind of device this is; the stack short-circuits loopback
/// transmits back into its own ingress.
#[derive(Debug, Clone, Copy, PartialEq, Eq, Structural)]
pub enum NetDeviceType {
    Loopback,
    Ethernet,
}

pub const FLAG_UP: u16 = 0x0001;

pub const FLAG_BROADCAST: u16 = 0x0002;

pub const FLAG_LOOPBACK: u16 = 0x0008;

pub const FLAG_RUNNING: u16 = 0x0040;

/// The UP bit of a flag word.
pub open spec fn flag_up(f: u16) -> bool {
    f % 2 == 1
}

/// The RUNNING bit of a flag word.
pub open spec fn flag_running(f: u16) -> bool {
    f / 0x40 % 2 == 1
}

/// A device's flag bits.
#[derive(Debug, Clone, Copy, PartialEq, Eq, Structural)]
pub struct NetDeviceFlags(pub u16);

impl NetDeviceFlags {
    /// Whether every bit of `other` is set in `self`.
    pub fn contains(self, other: NetDeviceFlags) -> (r: bool)
        ensures
            r == ((self.0 & other.0) == other.0),
    {
        (self.0 & other.0) == other.0
    }

    /// Whether the UP bit is set.
    pub fn is_up(self) -> (r: bool)
        ensures
            r == flag_up(self.0),
    {
        self.0 % 2 == 1
    }

    /// Whether the RUNNING bit is set.
    pub fn is_running(self) -> (r: bool)
        ensures
            r == flag_running(self.0),
    {
        self.0 / 0x40 % 2 == 1
    }
}

/// Everything needed to create a device.
pub struct NetDeviceConfig {
    pub name: String,
    pub dev_type: NetDeviceType,
    pub mtu: u16,
    pub flags: NetDeviceFlags,
    pub header_len: u16,
    pub addr_len: u16,
    pub hw_addr: MacAddr,
}

/// A network device: name, type, MTU, flag bits, hardware address and
/// the interfaces attached to it.
pub struct NetDevice {
    pub name: String,
    pub dev_type: NetDeviceType,
    pub mtu: u16,
    pub flags: NetDeviceFlags,
    pub header_len: u16,
    pub addr_len: u16,
    pub hw_addr: MacAddr,
    pub interfaces: Vec<NetInterface>,
}

impl NetDevice {
    /// A fresh device with no interfaces.
    pub fn new(config: NetDeviceConfig) -> (r: Self)
        ensures
            r.name@ == config.name@,
            r.dev_type == config.dev_type,
            r.mtu == config.mtu,
            r.flags == config.flags,
            r.header_len == config.header_len,
            r.addr_len == config.addr_len,
            r.hw_addr == config.hw_addr,
            r.interfaces@.len() == 0,
    {
        NetDevice {
            name: config.name,
            dev_type: config.dev_type,
            mtu: config.mtu,
            flags: config.flags,
            header_len: config.header_len,
            addr_len: config.addr_len,
            hw_addr: config.hw_addr,
            interfaces: Vec::new(),
        }
    }

    /// The device's name.
    pub fn name(&self) -> (r: &str)
        ensures
            r@ == self.name@,
    {
        self.name.as_str()
    }

    pub fn flags(&self) -> (r: NetDeviceFlags)
        ensures
            r == self.flags,
    {
        self.flags
    }

    pub fn set_flags(&mut self, flags: NetDeviceFlags)
        ensures
            *final(self) == (NetDevice { flags, ..*old(self) }),
    {
        self.flags = flags;
    }

    /// Mark the device usable: set UP and RUNNING, keeping every other
    /// bit.
    pub fn open(&mut self)
        ensures
            flag_up(final(self).flags.0),
            flag_running(final(self).flags.0),
            final(self).name@ == old(self).name@,
            final(self).dev_type == old(self).dev_type,
            final(self).interfaces@ == old(self).interfaces@,
            final(self).hw_addr == old(self).hw_addr,
            final(self).mtu == old(self).mtu,
    {
        let mut f = self.flags.0;
        if f % 2 == 0 {
            f = f + 1;
        }
        if f / 0x40 % 2 == 0 {
            f = f + 0x40;
        }
        self.flags = NetDeviceFlags(f);
    }

    /// Stop the device: clear RUNNING, keeping every other bit.
    pub fn close(&mut self)
        ensures
            !flag_running(final(self).flags.0),
            flag_up(final(self).flags.0) == flag_up(old(self).flags.0),
            final(self).name@ == old(self).name@,
            final(self).dev_type == old(self).dev_type,
            final(self).interfaces@ == old(self).interfaces@,
            final(self).hw_addr == old(self).hw_addr,
            final(self).mtu == old(self).mtu,
    {
        let mut f = self.flags.0;
        if f / 0x40 % 2 == 1 {
            f = f - 0x40;
        }
        self.flags = NetDeviceFlags(f);
    }

    /// Attach an interface.
    pub fn add_interface(&mut self, iface: NetInterface)
        ensures
            final(self).interfaces@ == old(self).interfaces@.push(iface),
            final(self).name@ == old(self).name@,
            final(self).dev_type == old(self).dev_type,
            final(self).flags == old(self).flags,
            final(self).hw_addr == old(self).hw_addr,
            final(self).mtu == old(self).mtu,
    {
        self.interfaces.push(iface);
    }

    /// The attached interface with exactly this address, if any.
    pub fn interface_by_addr(&self, addr: u32) -> (r: Option<&NetInterface>)
        ensures
            match r {
                Some(i) => exists|k: int|
                    0 <= k < self.interfaces@.len() && self.interfaces@[k] == *i && i.addr.0
                        == addr,
                None => forall|k: int|
                    0 <= k < self.interfaces@.len() ==> (#[trigger] self.interfaces@[k]).addr.0
                        != addr,
            },
    {
        let n = self.interfaces.len();
        let mut i: usize = 0;
        while i < n
            invariant
                i <= n,
                n == self.interfaces@.len(),
                forall|k: int|
                    0 <= k < i ==> (#[trigger] self.interfaces@[k]).addr.0 != addr,
            decreases n - i,
        {
            if self.interfaces[i].addr.0 == addr {
                return Some(&self.interfaces[i]);
            }
            i = i + 1;
        }
        None
    }
}

/// Compare two byte strings.
pub fn bytes_eq(a: &[u8], b: &[u8]) -> (r: bool)
    ensures
        r == (a@ == b@),
{
    if a.len() != b.len() {
        return false;
    }
    let n = a.len();
    let mut i: usize = 0;
    while i < n
        invariant
            i <= n,
            n == a@.len(),
            n == b@.len(),
            forall|j: int| 0 <= j < i ==> a@[j] == b@[j],
        decreases n - i,
    {
        if a[i] != b[i] {
            return false;
        }
        i = i + 1;
    }
    proof {
        assert(a@ =~= b@);
    }
    true
}

} // verus!
