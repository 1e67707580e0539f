//! The closed error enum shared by every fallible operation of the stack.

use vstd::prelude::*;

verus! {

/// Every failure the stack can report.
#[derive(Clone, Copy, Debug, PartialEq, Eq, Structural)]
pub enum NetError {
    // Framing
    PacketTooShort,
    PacketTooLarge,
    PacketTruncated,
    InvalidLength,
    InvalidHeaderLen,
    InvalidVersion,
    ChecksumError,
    UnsupportedProtocol,
    // Addressing
    InvalidAddress,
    Unaddressable,
    NoSuchNode,
    // Devices
    DeviceNotFound,
    UnsupportedDevice,
    NotConnected,
    // Resources
    StorageFull,
    NoBufferSpace,
    NoSocketAvailable,
    NoPortAvailable,
    PortInUse,
    InvalidSocketIndex,
    InvalidSocketState,
    NoMatchingSocket,
    BufferFull,
    // Lifecycle
    SocketAlreadyOpen,
    SocketNotOpen,
    WouldBlock,
    Timeout,
}

} // verus!
