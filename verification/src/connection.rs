//! What identifies a flow between the client and the network.

use crate::ip_packet::{ip_packet, IpPacket, IpPacketView, PacketParseError};
use crate::ipv4_header::{protocol_from_number, protocol_of, Ipv4Fields, Ipv4HeaderData, Protocol};
use crate::ipv4_packet::Ipv4PacketView;
use crate::ipv6_header::Ipv6Header;
use crate::ipv6_packet::{ipv6_packet, is_ipv6_packet, Ipv6PacketView};
use crate::ipv6_packetizer::{law_packet_travels_back, mirrored};
use crate::net::{to_socket_addr, Endpoint, SocketAddr, SocketAddrV4, SocketAddrV6};
use crate::transport_header::{TransportFields, TransportHeader, TransportHeaderData};
use vstd::prelude::*;
use vstd::string::StringExecFns;

verus! {

/// 10.0.2.2, by which the client means the relay's own host.
pub const LOCALHOST_FORWARD: u32 = 0x0A_00_02_02;

/// 127.0.0.1
pub const LOCALHOST: u32 = 0x7F_00_00_01;

/// The port of the domain name service.
pub const DNS_PORT: u16 = 53;

/// Where queries to the virtual name server really go.
#[derive(Clone, Copy, Debug)]
pub struct DnsRedirect {
    /// The address of the name server that the client believes in.
    pub virtual_dns: u32,
    /// The name server of the host.
    pub upstream: SocketAddrV4,
}

#[derive(Clone, Copy, Debug, PartialEq, Eq, Hash)]
pub struct ConnectionId {
    protocol: Protocol,
    source: SocketAddr,
    destination: SocketAddr,
}

/// The mathematical reading of a [`ConnectionId`].
#[verifier::ext_equal]
pub struct Flow {
    pub protocol: Protocol,
    pub source: Endpoint,
    pub destination: Endpoint,
}

impl Flow {
    /// The same flow, seen from the other end.
    pub open spec fn reversed(self) -> Flow {
        Flow { protocol: self.protocol, source: self.destination, destination: self.source }
    }
}

/// The flow that an IPv4 packet with these headers belongs to.
pub open spec fn ipv4_flow(header: Ipv4Fields, transport: TransportFields) -> Flow {
    Flow {
        protocol: header.protocol,
        source: Endpoint::V4 { ip: header.source, port: transport.source_port },
        destination: Endpoint::V4 { ip: header.destination, port: transport.destination_port },
    }
}

/// The flow that a packet belongs to; only TCP and UDP have flows.
pub open spec fn flow_of(packet: IpPacketView) -> Option<Flow> {
    match packet {
        IpPacketView::Ipv4(packet) => match packet.transport {
            Some(transport) => Some(ipv4_flow(packet.header, transport)),
            None => None,
        },
        IpPacketView::Ipv6(packet) => match protocol_of(packet.header.next_header) {
            Protocol::Other => None,
            protocol => Some(
                Flow {
                    protocol,
                    source: Endpoint::V6 {
                        octets: packet.header.source,
                        port: packet.transport.source_port,
                    },
                    destination: Endpoint::V6 {
                        octets: packet.header.destination,
                        port: packet.transport.destination_port,
                    },
                },
            ),
        },
    }
}

/// Where the host has to connect for a flow to this destination.
pub open spec fn rewritten(destination: Endpoint, dns: DnsRedirect) -> Endpoint {
    match destination {
        Endpoint::V4 { ip, port } => if ip == dns.virtual_dns && port == DNS_PORT {
            dns.upstream@
        } else if ip == LOCALHOST_FORWARD {
            Endpoint::V4 { ip: LOCALHOST as int, port }
        } else {
            destination
        },
        Endpoint::V6 { .. } => destination,
    }
}

/// Law: flows of the two IP versions are never taken for each other, whatever
/// their ports.
pub proof fn law_ip_versions_do_not_share_flows(ipv4: IpPacketView, ipv6: IpPacketView)
    requires
        ipv4 is Ipv4,
        ipv6 is Ipv6,
        flow_of(ipv4) is Some,
        flow_of(ipv6) is Some,
    ensures
        flow_of(ipv4) != flow_of(ipv6),
{
    assert(flow_of(ipv4).unwrap().source is V4);
    assert(flow_of(ipv6).unwrap().source is V6);
}

/// Law: every packet synthesized from the headers of a request belongs to the
/// request's flow, seen from the other end.
pub proof fn law_response_belongs_to_the_reversed_flow(
    request: Ipv6PacketView,
    ipv6_header: Ipv6Header,
    transport_header: TransportHeader,
    payload: Seq<u8>,
)
    requires
        is_ipv6_packet(request),
        ipv6_header.faithful(),
        ipv6_header.fields() == request.header,
        transport_header.faithful(),
        transport_header.fields() == request.transport,
        payload.len() <= mirrored(ipv6_header, transport_header).room(),
    ensures
        flow_of(IpPacketView::Ipv6(request)) matches Some(flow) && ipv6_packet(
            mirrored(ipv6_header, transport_header).packet(payload),
        ) matches Ok(response) && flow_of(IpPacketView::Ipv6(response)) == Some(flow.reversed()),
{
    law_packet_travels_back(ipv6_header, transport_header, payload);
}

/// How a flow is named in messages, given the texts of its two ends.
pub fn id_string(source: &str, destination: &str) -> (text: String)
    ensures
        text@ == source@ + " -> "@ + destination@,
{
    source.to_owned().concat(" -> ").concat(destination)
}

impl View for ConnectionId {
    type V = Flow;

    closed spec fn view(&self) -> Flow {
        Flow { protocol: self.protocol, source: self.source@, destination: self.destination@ }
    }
}

impl ConnectionId {
    pub fn new(protocol: Protocol, source: SocketAddr, destination: SocketAddr) -> (id: Self)
        ensures
            id@ == (Flow { protocol, source: source@, destination: destination@ }),
    {
        ConnectionId { protocol, source, destination }
    }

    /// The flow of an IPv4 packet with these headers.
    pub fn from_headers(
        ipv4_header_data: &Ipv4HeaderData,
        transport_header_data: &TransportHeaderData,
    ) -> (id: Self)
        ensures
            id@ == ipv4_flow(ipv4_header_data@, transport_header_data@),
    {
        Self::new(
            ipv4_header_data.protocol(),
            to_socket_addr(ipv4_header_data.source(), transport_header_data.source_port()),
            to_socket_addr(
                ipv4_header_data.destination(),
                transport_header_data.destination_port(),
            ),
        )
    }

    /// The flow of a packet, if it belongs to one.
    pub fn from_packet(packet: &IpPacket) -> (id: Option<Self>)
        ensures
            match id {
                Some(id) => flow_of(packet@) == Some(id@),
                None => flow_of(packet@) is None,
            },
    {
        match packet {
            IpPacket::Ipv4(packet) => {
                let (header, transport) = packet.headers_data();
                match transport {
                    Some(transport) => Some(Self::from_headers(header, transport)),
                    None => None,
                }
            },
            IpPacket::Ipv6(packet) => {
                let header = packet.ipv6_header_data();
                let transport = packet.transport_header_data();
                let protocol: Protocol = match protocol_from_number(header.next_header()) {
                    Protocol::Other => return None,
                    protocol => protocol,
                };
                let source: SocketAddr = SocketAddr::V6(
                    SocketAddrV6 { ip: header.source(), port: transport.source_port() },
                );
                let destination: SocketAddr = SocketAddr::V6(
                    SocketAddrV6 { ip: header.destination(), port: transport.destination_port() },
                );
                Some(Self::new(protocol, source, destination))
            },
        }
    }

    pub fn protocol(&self) -> (protocol: Protocol)
        ensures
            protocol == self@.protocol,
    {
        self.protocol
    }

    pub fn source(&self) -> (source: SocketAddr)
        ensures
            source@ == self@.source,
    {
        self.source
    }

    pub fn destination(&self) -> (destination: SocketAddr)
        ensures
            destination@ == self@.destination,
    {
        self.destination
    }

    /// Where the host has to connect for this flow: the virtual name server
    /// stands for the host's, and 10.0.2.2 for the host itself.
    pub fn rewritten_destination(&self, dns: &DnsRedirect) -> (destination: SocketAddr)
        ensures
            destination@ == rewritten(self@.destination, *dns),
    {
        match self.destination {
            SocketAddr::V4(destination) => {
                if destination.ip == dns.virtual_dns && destination.port == DNS_PORT {
                    SocketAddr::V4(dns.upstream)
                } else if destination.ip == LOCALHOST_FORWARD {
                    to_socket_addr(LOCALHOST, destination.port)
                } else {
                    self.destination
                }
            },
            SocketAddr::V6(_) => self.destination,
        }
    }
}

/// Law: every IPv4 packet with a transport header, TCP as well as UDP, belongs to
/// the flow from the address and port that it comes from to those that it goes to,
/// as its bytes say; no other IPv4 packet belongs to a flow.
pub proof fn law_ipv4_flow_is_in_the_bytes(raw: Seq<u8>, packet: IpPacketView)
    requires
        raw[0] / 16 == 4,
        ip_packet(raw) == Ok::<IpPacketView, PacketParseError>(packet),
    ensures
        ({
            let start: int = (raw[0] % 16) * 4;
            &&& flow_of(packet) is Some <==> raw[9] == 6 || raw[9] == 17
            &&& flow_of(packet) matches Some(flow) ==> {
                &&& flow.protocol is Tcp <==> raw[9] == 6
                &&& flow.protocol is Udp <==> raw[9] == 17
                &&& flow.source == (Endpoint::V4 {
                    ip: raw[12] * 0x100_0000 + raw[13] * 0x1_0000 + raw[14] * 0x100 + raw[15],
                    port: raw[start] * 256 + raw[start + 1],
                })
                &&& flow.destination == (Endpoint::V4 {
                    ip: raw[16] * 0x100_0000 + raw[17] * 0x1_0000 + raw[18] * 0x100 + raw[19],
                    port: raw[start + 2] * 256 + raw[start + 3],
                })
            }
        }),
{
}

/// Law: every IPv6 packet that is read belongs to the flow from the address and
/// port that it comes from to those that it goes to, as its bytes say.
pub proof fn law_ipv6_flow_is_in_the_bytes(raw: Seq<u8>, packet: IpPacketView)
    requires
        raw[0] / 16 == 6,
        ip_packet(raw) == Ok::<IpPacketView, PacketParseError>(packet),
    ensures
        flow_of(packet) matches Some(flow) && {
            &&& flow.protocol is Tcp <==> raw[6] == 6
            &&& flow.protocol is Udp <==> raw[6] == 17
            &&& flow.source == (Endpoint::V6 {
                octets: raw.subrange(8, 24),
                port: raw[40] * 256 + raw[41],
            })
            &&& flow.destination == (Endpoint::V6 {
                octets: raw.subrange(24, 40),
                port: raw[42] * 256 + raw[43],
            })
        },
{
}

/// Law: the headers of an IPv4 packet and the packet itself name one flow, which
/// runs from where the headers say the packet comes to where they say it goes.
pub proof fn law_headers_name_the_flow_of_their_packet(
    packet: Ipv4PacketView,
    header: Ipv4Fields,
    transport: TransportFields,
)
    ensures
        packet.transport matches Some(carried) ==> flow_of(IpPacketView::Ipv4(packet)) == Some(
            ipv4_flow(packet.header, carried),
        ),
        packet.transport is None ==> flow_of(IpPacketView::Ipv4(packet)) is None,
        ipv4_flow(header, transport).protocol == header.protocol,
        ipv4_flow(header, transport).source == (Endpoint::V4 {
            ip: header.source,
            port: transport.source_port,
        }),
        ipv4_flow(header, transport).destination == (Endpoint::V4 {
            ip: header.destination,
            port: transport.destination_port,
        }),
{
}

/// Law: seen from the other end, a flow has its ends exchanged and its protocol
/// kept; it is the same flow only if both ends are.
pub proof fn law_flow_has_a_direction(flow: Flow)
    ensures
        flow.reversed().source == flow.destination,
        flow.reversed().destination == flow.source,
        flow.reversed().protocol == flow.protocol,
        flow.reversed().reversed() == flow,
        flow.reversed() == flow <==> flow.source == flow.destination,
{
}

/// Law: only queries to the virtual name server and packets to 10.0.2.2 are sent
/// elsewhere: the former to the host's name server, the latter to the same port of
/// 127.0.0.1. Every other destination stays, and every IPv6 destination.
pub proof fn law_destinations_that_are_rewritten(destination: Endpoint, dns: DnsRedirect)
    ensures
        destination is V6 ==> rewritten(destination, dns) == destination,
        destination matches Endpoint::V4 { ip, port } ==> {
            let query: bool = ip == dns.virtual_dns && port == 53;
            let forward: bool = ip == 0x0a00_0202;
            &&& query ==> rewritten(destination, dns) == (Endpoint::V4 {
                ip: dns.upstream.ip as int,
                port: dns.upstream.port as int,
            })
            &&& !query && forward ==> rewritten(destination, dns) == (Endpoint::V4 {
                ip: 0x7f00_0001,
                port,
            })
            &&& !query && !forward ==> rewritten(destination, dns) == destination
        },
{
}

} // verus!
