//! Network addresses as numbers.
use vstd::prelude::*;

verus! {

#[derive(Debug, Clone, Copy, PartialEq, Eq, Structural)]
pub enum IpAddress {
    /// The four bytes of an IPv4 address as a number, the first byte highest
    V4(u32),
    /// The sixteen bytes of an IPv6 address as a number, the first byte highest
    V6(u128),
}

#[derive(Debug, Clone, Copy, PartialEq, Eq, Structural)]
pub struct SocketAddress {
    pub ip: IpAddress,
    pub port: u16,
}

} // verus!
