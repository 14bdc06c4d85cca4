use vstd::prelude::*;

verus! {

/// An IP address, by value.
#[derive(Copy, Clone, PartialEq, Eq, Debug, Structural)]
pub enum IpAddress {
    /// The four octets of an IPv4 address, most significant first.
    V4(u8, u8, u8, u8),
    /// An IPv6 address as one 128-bit number, with its flow label and scope id.
    V6(u128, u32, u32),
}

/// A socket address: an IP address and a port.
#[derive(Copy, Clone, PartialEq, Eq, Debug, Structural)]
pub struct NetAddress {
    pub ip: IpAddress,
    pub port: u16,
}

impl NetAddress {
    pub fn new(ip: IpAddress, port: u16) -> (r: NetAddress)
        ensures
            r.ip == ip,
            r.port == port,
    {
        NetAddress { ip, port }
    }

    /// An IPv4 socket address from its four octets and port.
    pub fn v4(a: u8, b: u8, c: u8, d: u8, port: u16) -> (r: NetAddress)
        ensures
            r.ip == IpAddress::V4(a, b, c, d),
            r.port == port,
    {
        NetAddress { ip: IpAddress::V4(a, b, c, d), port }
    }

    pub fn port(&self) -> (r: u16)
        ensures
            r == self.port,
    {
        self.port
    }
}

} // verus!
