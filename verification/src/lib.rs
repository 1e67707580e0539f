//! An in-kernel style IPv4 networking stack, verified with Verus.
//!
//! The stack owns the path from raw Ethernet frames up through ARP, IPv4,
//! ICMP echo, UDP datagrams and a connection-oriented TCP implementation.
//! All state lives in plain structs; time and received frames are handed in
//! as arguments, and frames to transmit are handed back out, so that every
//! decision the stack makes is verified.

pub mod arp;
pub mod device;
pub mod dns;
pub mod err;
pub mod ether;
pub mod icmp;
pub mod interface;
pub mod ip;
pub mod protocol;
pub mod route;
pub mod socket;
pub mod stack;
pub mod tcp;
pub mod trace;
pub mod udp;
pub mod util;
