//! Link-layer and network-layer address types.
//!
//! Addresses are held as plain bytes so that wire encodings can be stated
//! exactly: a MAC address is six octets, an IPv4 address four, an IPv6
//! address sixteen.

use vstd::prelude::*;

verus! {

/// A 48-bit Ethernet MAC address.
#[derive(Clone, Copy, Debug, PartialEq, Eq, Hash)]
pub struct MacAddr {
    pub a: u8,
    pub b: u8,
    pub c: u8,
    pub d: u8,
    pub e: u8,
    pub f: u8,
}

impl MacAddr {
    /// The six octets of the address, in transmission order.
    pub open spec fn octets_seq(&self) -> Seq<u8> {
        seq![self.a, self.b, self.c, self.d, self.e, self.f]
    }

    pub fn new(a: u8, b: u8, c: u8, d: u8, e: u8, f: u8) -> (r: MacAddr)
        ensures
            r == (MacAddr { a, b, c, d, e, f }),
    {
        MacAddr { a, b, c, d, e, f }
    }
}

/// An IPv4 address as four octets in transmission order.
#[derive(Clone, Copy, Debug, PartialEq, Eq, Hash)]
pub struct Ipv4Addr {
    pub a: u8,
    pub b: u8,
    pub c: u8,
    pub d: u8,
}

impl Ipv4Addr {
    /// The four octets of the address, in transmission order.
    pub open spec fn octets_seq(&self) -> Seq<u8> {
        seq![self.a, self.b, self.c, self.d]
    }

    pub fn new(a: u8, b: u8, c: u8, d: u8) -> (r: Ipv4Addr)
        ensures
            r == (Ipv4Addr { a, b, c, d }),
    {
        Ipv4Addr { a, b, c, d }
    }
}

/// An IPv6 address as sixteen octets in transmission order.
#[derive(Clone, Copy, Debug, PartialEq, Eq, Hash)]
pub struct Ipv6Addr {
    pub octets: [u8; 16],
}

impl Ipv6Addr {
    pub fn new(octets: [u8; 16]) -> (r: Ipv6Addr)
        ensures
            r == (Ipv6Addr { octets }),
    {
        Ipv6Addr { octets }
    }
}

/// A network address of either family, tagged by version.
#[derive(Clone, Copy, Debug, PartialEq, Eq, Hash)]
pub enum IpAddr {
    V4(Ipv4Addr),
    V6(Ipv6Addr),
}

impl IpAddr {
    /// The version tag carried on the wire: 4 or 6.
    pub open spec fn spec_version(&self) -> u8 {
        match self {
            IpAddr::V4(_) => 4,
            IpAddr::V6(_) => 6,
        }
    }

    /// The sixteen-byte wire form of the address: an IPv4 address occupies
    /// the low four bytes and the rest is zero-filled; an IPv6 address
    /// occupies all sixteen.
    pub open spec fn bytes16(&self) -> Seq<u8> {
        match self {
            IpAddr::V4(v4) => v4.octets_seq() + Seq::new(12, |i: int| 0u8),
            IpAddr::V6(v6) => v6.octets@,
        }
    }

    pub fn version(&self) -> (r: u8)
        ensures
            r == self.spec_version(),
    {
        match self {
            IpAddr::V4(_) => 4,
            IpAddr::V6(_) => 6,
        }
    }
}

} // verus!
