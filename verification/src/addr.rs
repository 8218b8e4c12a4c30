//! Plain-value models of the network addresses the service works with.

use vstd::prelude::*;

verus! {

/// An IP address, held as plain values: the four octets of a version-4
/// address, or the eight 16-bit groups of a version-6 address.
#[derive(Clone, Copy, Debug, PartialEq, Eq)]
pub enum IpAddress {
    V4(u8, u8, u8, u8),
    V6([u16; 8]),
}

/// The local loopback address.
pub open spec fn loopback_ip() -> IpAddress {
    IpAddress::V4(127, 0, 0, 1)
}

/// The address of the remote end of the connection that delivered the
/// current request, as the transport layer reports it.
#[derive(Clone, Copy, Debug, PartialEq, Eq)]
pub struct PeerAddress {
    pub ip: IpAddress,
    pub port: u16,
}

} // verus!
