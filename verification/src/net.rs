//! Transport addresses as plain values.

use vstd::prelude::*;

verus! {

/// An IP address, as the bytes that go on the wire (network order).
#[derive(Clone, Copy, Debug, PartialEq, Eq)]
pub enum IpAddress {
    V4([u8; 4]),
    V6([u8; 16]),
}

/// An IP address and a port.
#[derive(Clone, Copy, Debug, PartialEq, Eq)]
pub struct SocketAddress {
    pub ip: IpAddress,
    pub port: u16,
}

impl IpAddress {
    /// The address bytes: four for IPv4, sixteen for IPv6.
    pub open spec fn bytes(self) -> Seq<u8> {
        match self {
            IpAddress::V4(a) => a@,
            IpAddress::V6(a) => a@,
        }
    }

    pub open spec fn is_v4(self) -> bool {
        self is V4
    }

    /// Tells whether this is an IPv4 address.
    pub fn is_ipv4(&self) -> (r: bool)
        ensures
            r == self.is_v4(),
    {
        match self {
            IpAddress::V4(_) => true,
            IpAddress::V6(_) => false,
        }
    }
}

/// The mathematical content of a [`SocketAddress`].
pub struct SocketAddressView {
    /// IPv4 (four address bytes) or IPv6 (sixteen).
    pub v4: bool,
    pub ip: Seq<u8>,
    pub port: u16,
}

impl SocketAddressView {
    /// The address has as many bytes as its family asks for.
    pub open spec fn wf(self) -> bool {
        self.ip.len() == if self.v4 {
            4int
        } else {
            16int
        }
    }
}

impl View for SocketAddress {
    type V = SocketAddressView;

    open spec fn view(&self) -> SocketAddressView {
        SocketAddressView { v4: self.ip.is_v4(), ip: self.ip.bytes(), port: self.port }
    }
}

impl SocketAddress {
    pub fn new(ip: IpAddress, port: u16) -> (r: SocketAddress)
        ensures
            r == (SocketAddress { ip, port }),
    {
        SocketAddress { ip, port }
    }
}

} // verus!
