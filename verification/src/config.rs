use vstd::prelude::*;

use crate::address::{IpAddress, NetAddress};

verus! {

pub const DEFAULT_SERVER_PORT: u16 = 5745;
pub const DEFAULT_CLIENT_PORT: u16 = 4557;

/// Where the server listens.
#[derive(Copy, Clone, PartialEq, Eq, Debug, Structural)]
pub struct ServerAddress {
    pub address: NetAddress,
}

impl Default for ServerAddress {
    /// The loopback address on the default server port.
    fn default() -> (r: Self)
        ensures
            r.address == (NetAddress { ip: IpAddress::V4(127, 0, 0, 1), port: DEFAULT_SERVER_PORT }),
    {
        ServerAddress { address: NetAddress::v4(127, 0, 0, 1, DEFAULT_SERVER_PORT) }
    }
}

/// The port on which a client listens.
#[derive(Copy, Clone, PartialEq, Eq, Debug, Structural)]
pub struct ClientPort(pub u16);

impl Default for ClientPort {
    fn default() -> (r: Self)
        ensures
            r.0 == DEFAULT_CLIENT_PORT,
    {
        ClientPort(DEFAULT_CLIENT_PORT)
    }
}

} // verus!
