//! Socket addresses as plain values.

use vstd::prelude::*;

verus! {

/// An IPv4 address, as a number, and a port.
#[derive(Clone, Copy, Debug, PartialEq, Eq, Hash)]
pub struct SocketAddrV4 {
    pub ip: u32,
    pub port: u16,
}

/// An IPv6 address, as its octets, and a port.
#[derive(Clone, Copy, Debug, PartialEq, Eq, Hash)]
pub struct SocketAddrV6 {
    pub ip: [u8; 16],
    pub port: u16,
}

#[derive(Clone, Copy, Debug, PartialEq, Eq, Hash)]
pub enum SocketAddr {
    V4(SocketAddrV4),
    V6(SocketAddrV6),
}

/// The mathematical reading of a [`SocketAddr`].
#[verifier::ext_equal]
pub enum Endpoint {
    V4 { ip: int, port: int },
    V6 { octets: Seq<u8>, port: int },
}

/// The octets of ::1.
pub open spec fn ipv6_loopback() -> Seq<u8> {
    seq![0u8, 0, 0, 0, 0, 0, 0, 0, 0, 0, 0, 0, 0, 0, 0, 1]
}

impl Endpoint {
    /// The address belongs to the loopback interface: 127.0.0.0/8 or ::1.
    pub open spec fn is_loopback(self) -> bool {
        match self {
            Endpoint::V4 { ip, .. } => ip / 0x100_0000 == 127,
            Endpoint::V6 { octets, .. } => octets == ipv6_loopback(),
        }
    }

    pub open spec fn port(self) -> int {
        match self {
            Endpoint::V4 { port, .. } => port,
            Endpoint::V6 { port, .. } => port,
        }
    }
}

impl View for SocketAddrV4 {
    type V = Endpoint;

    open spec fn view(&self) -> Endpoint {
        Endpoint::V4 { ip: self.ip as int, port: self.port as int }
    }
}

impl View for SocketAddrV6 {
    type V = Endpoint;

    open spec fn view(&self) -> Endpoint {
        Endpoint::V6 { octets: self.ip@, port: self.port as int }
    }
}

impl View for SocketAddr {
    type V = Endpoint;

    open spec fn view(&self) -> Endpoint {
        match *self {
            SocketAddr::V4(address) => address@,
            SocketAddr::V6(address) => address@,
        }
    }
}

/// An IPv4 socket address.
pub fn to_socket_addr(ip: u32, port: u16) -> (address: SocketAddr)
    ensures
        address@ == (Endpoint::V4 { ip: ip as int, port: port as int }),
{
    SocketAddr::V4(SocketAddrV4 { ip, port })
}

impl SocketAddrV6 {
    /// Whether the address is ::1.
    pub fn is_loopback(&self) -> (loopback: bool)
        ensures
            loopback == self@.is_loopback(),
    {
        let mut i: usize = 0;
        while i < 15
            invariant
                i <= 15,
                forall|j: int| 0 <= j < i ==> self.ip@[j] == 0,
            decreases 15 - i,
        {
            if self.ip[i] != 0 {
                assert(self.ip@[i as int] != ipv6_loopback()[i as int]);
                return false;
            }
            i = i + 1;
        }
        assert(self.ip@[15] == 1 ==> self.ip@ =~= ipv6_loopback());
        assert(self.ip@[15] != 1 ==> self.ip@[15] != ipv6_loopback()[15]);
        self.ip[15] == 1
    }
}

impl SocketAddr {
    /// Whether the address belongs to the loopback interface.
    pub fn is_loopback(&self) -> (loopback: bool)
        ensures
            loopback == self@.is_loopback(),
    {
        match self {
            SocketAddr::V4(address) => address.ip / 0x100_0000 == 127,
            SocketAddr::V6(address) => address.is_loopback(),
        }
    }

    pub fn port(&self) -> (port: u16)
        ensures
            port == self@.port(),
    {
        match self {
            SocketAddr::V4(address) => address.port,
            SocketAddr::V6(address) => address.port,
        }
    }
}

/// Law: an address is read with its own number or octets and its own port.
pub proof fn law_addresses_read_as_they_are(ipv4: SocketAddrV4, ipv6: SocketAddrV6)
    ensures
        SocketAddr::V4(ipv4)@ == (Endpoint::V4 { ip: ipv4.ip as int, port: ipv4.port as int }),
        SocketAddr::V6(ipv6)@ == (Endpoint::V6 { octets: ipv6.ip@, port: ipv6.port as int }),
        ipv4@ == SocketAddr::V4(ipv4)@,
        ipv6@ == SocketAddr::V6(ipv6)@,
        SocketAddr::V4(ipv4)@.port() == ipv4.port,
        SocketAddr::V6(ipv6)@.port() == ipv6.port,
{
}

/// Law: the loopback addresses are those from 127.0.0.0 to 127.255.255.255 and,
/// of IPv6, the number one, whatever the port.
pub proof fn law_loopback_addresses(address: Endpoint)
    ensures
        address matches Endpoint::V4 { ip, port } ==> (address.is_loopback() <==> 0x7f00_0000 <= ip
            <= 0x7fff_ffff),
        address matches Endpoint::V6 { octets, port } ==> octets.len() == 16 ==> (
        address.is_loopback() <==> octets[15] == 1 && forall|i: int|
            0 <= i < 15 ==> #[trigger] octets[i] == 0),
{
    if let Endpoint::V6 { octets, port } = address {
        if octets.len() == 16 {
            if octets[15] == 1 && forall|i: int| 0 <= i < 15 ==> #[trigger] octets[i] == 0 {
                assert(octets =~= ipv6_loopback());
            }
            if octets == ipv6_loopback() {
                assert(forall|i: int| 0 <= i < 15 ==> #[trigger] ipv6_loopback()[i] == 0);
            }
        }
    }
}

} // verus!
