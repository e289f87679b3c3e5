use relay::connection::{id_string, ConnectionId, DnsRedirect};
use relay::ip_packet::IpPacket;
use relay::ipv4_header::Protocol;
use relay::ipv6_packetizer::Ipv6Packetizer;
use relay::net::{to_socket_addr, SocketAddr, SocketAddrV4, SocketAddrV6};
use std::collections::HashSet;

const IPV6_LOCALHOST: [u8; 16] = [0, 0, 0, 0, 0, 0, 0, 0, 0, 0, 0, 0, 0, 0, 0, 1];

fn v4(octets: [u8; 4], port: u16) -> SocketAddr {
    to_socket_addr(u32::from_be_bytes(octets), port)
}

fn v6(ip: [u8; 16], port: u16) -> SocketAddr {
    SocketAddr::V6(SocketAddrV6 { ip, port })
}

fn dns() -> DnsRedirect {
    DnsRedirect {
        virtual_dns: u32::from_be_bytes([10, 0, 2, 3]),
        upstream: SocketAddrV4 { ip: u32::from_be_bytes([192, 168, 1, 1]), port: 5353 },
    }
}

fn to(destination: SocketAddr) -> ConnectionId {
    ConnectionId::new(Protocol::Udp, v4([10, 1, 1, 1], 1000), destination)
}

fn udp6(next_header: u8) -> Vec<u8> {
    let mut raw = vec![0x60, 0, 0, 0, 0, 20, next_header, 64];
    raw.extend_from_slice(&[0xa1; 16]);
    raw.extend_from_slice(&[0xb2; 16]);
    raw.extend_from_slice(&[0x04, 0xd2, 0x16, 0x2e, 0, 20, 0, 0, 0, 0, 0, 0, 0x50, 0, 0, 0, 0, 0, 0, 0]);
    raw
}

#[test]
fn connection_id_keeps_ipv4_and_ipv6_flows_with_the_same_ports_distinct() {
    let source_port: u16 = 40000;
    let destination_port: u16 = 443;
    let ipv4 = ConnectionId::new(
        Protocol::Tcp,
        v4([192, 0, 2, 1], source_port),
        v4([198, 51, 100, 2], destination_port),
    );
    let ipv6 = ConnectionId::new(
        Protocol::Tcp,
        v6(IPV6_LOCALHOST, source_port),
        v6(IPV6_LOCALHOST, destination_port),
    );

    assert_ne!(ipv4, ipv6);
    let mut ids = HashSet::new();
    ids.insert(ipv4);
    ids.insert(ipv6);
    assert_eq!(2, ids.len());
}

#[test]
fn flow_of_an_ipv6_packet_has_its_addresses_and_ports() {
    for (next_header, protocol) in [(6, Protocol::Tcp), (17, Protocol::Udp)] {
        let mut raw = udp6(next_header);
        let packet = IpPacket::parse(&mut raw).unwrap();
        let id = ConnectionId::from_packet(&packet).unwrap();
        assert_eq!(ConnectionId::new(protocol, v6([0xa1; 16], 1234), v6([0xb2; 16], 5678)), id);
        assert_eq!(protocol, id.protocol());
    }
}

#[test]
fn flow_of_an_ipv4_packet_has_its_addresses_and_ports() {
    let mut raw = vec![
        0x45, 0, 0, 28, 0, 0, 0, 0, 64, 17, 0, 0, 10, 1, 1, 1, 198, 51, 100, 2, // IPv4
        0x04, 0xd2, 0x16, 0x2e, 0, 8, 0, 0, // UDP
    ];
    let packet = IpPacket::parse(&mut raw).unwrap();
    let id = ConnectionId::from_packet(&packet).unwrap();
    assert_eq!(
        ConnectionId::new(Protocol::Udp, v4([10, 1, 1, 1], 1234), v4([198, 51, 100, 2], 5678)),
        id
    );
    assert_eq!(v4([10, 1, 1, 1], 1234), id.source());
    assert_eq!(v4([198, 51, 100, 2], 5678), id.destination());
}

#[test]
fn packet_without_ports_has_no_flow() {
    let mut raw = vec![0x45, 0, 0, 20, 0, 0, 0, 0, 64, 1, 0, 0, 10, 1, 1, 1, 198, 51, 100, 2];
    let packet = IpPacket::parse(&mut raw).unwrap();
    assert!(ConnectionId::from_packet(&packet).is_none());
}

#[test]
fn response_belongs_to_the_reversed_flow() {
    let mut raw = udp6(17);
    let packet = IpPacket::parse(&mut raw).unwrap();
    let id = ConnectionId::from_packet(&packet).unwrap();
    let packet = match packet {
        IpPacket::Ipv6(packet) => packet,
        IpPacket::Ipv4(_) => panic!("expected an IPv6 packet"),
    };
    let header = packet.ipv6_header();
    let transport = packet.transport_header();
    let mut packetizer = Ipv6Packetizer::new(&header, &transport);
    let mut response = packetizer.packetize(&[1, 2, 3]).raw().to_vec();
    let response_id = ConnectionId::from_packet(&IpPacket::parse(&mut response).unwrap()).unwrap();
    assert_eq!(ConnectionId::new(id.protocol(), id.destination(), id.source()), response_id);
}

#[test]
fn queries_to_the_virtual_name_server_go_upstream() {
    assert_eq!(
        v4([192, 168, 1, 1], 5353),
        to(v4([10, 0, 2, 3], 53)).rewritten_destination(&dns())
    );
    assert_eq!(
        v4([10, 0, 2, 3], 54),
        to(v4([10, 0, 2, 3], 54)).rewritten_destination(&dns())
    );
}

#[test]
fn forward_address_stands_for_the_host() {
    assert_eq!(
        v4([127, 0, 0, 1], 8080),
        to(v4([10, 0, 2, 2], 8080)).rewritten_destination(&dns())
    );
}

#[test]
fn virtual_name_server_goes_before_the_forward_address() {
    let both = DnsRedirect { virtual_dns: 0x0a_00_02_02, ..dns() };
    assert_eq!(v4([192, 168, 1, 1], 5353), to(v4([10, 0, 2, 2], 53)).rewritten_destination(&both));
    assert_eq!(v4([127, 0, 0, 1], 80), to(v4([10, 0, 2, 2], 80)).rewritten_destination(&both));
}

#[test]
fn other_destinations_stay() {
    for destination in [v4([198, 51, 100, 2], 53), v6(IPV6_LOCALHOST, 53)] {
        assert_eq!(destination, to(destination).rewritten_destination(&dns()));
    }
}

#[test]
fn flow_is_named_by_its_ends() {
    assert_eq!("10.1.1.1:1 -> [::1]:443", id_string("10.1.1.1:1", "[::1]:443"));
}

#[test]
fn loopback_addresses_are_known() {
    assert!(v4([127, 0, 0, 1], 1).is_loopback());
    assert!(v4([127, 255, 255, 255], 1).is_loopback());
    assert!(!v4([128, 0, 0, 1], 1).is_loopback());
    assert!(!v4([126, 255, 255, 255], 1).is_loopback());
    assert!(v6(IPV6_LOCALHOST, 1).is_loopback());
    assert!(!v6([0; 16], 1).is_loopback());
    assert!(!v6([1; 16], 1).is_loopback());
    let mut other = IPV6_LOCALHOST;
    other[14] = 1;
    assert!(!v6(other, 1).is_loopback());
}
