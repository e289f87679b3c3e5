use relay::connection::{ConnectionId, DnsRedirect};
use relay::error::ErrorKind;
use relay::ip_packet::IpPacket;
use relay::ipv4_header::Protocol;
use relay::ipv6_connection::{Ipv6Connection, ReadOutcome, Socket, SocketRequest, WriteOutcome};
use relay::ipv6_packetizer::Ipv6Packetizer;
use relay::net::{SocketAddr, SocketAddrV4, SocketAddrV6};

const SECOND: u64 = 1_000_000_000;

const DNS: DnsRedirect =
    DnsRedirect { virtual_dns: 0x0a_00_02_03, upstream: SocketAddrV4 { ip: 0x08_08_08_08, port: 53 } };

fn request(next_header: u8, payload: &[u8]) -> Vec<u8> {
    let transport: Vec<u8> = if next_header == 6 {
        vec![0x04, 0xd2, 0x16, 0x2e, 0, 0, 0, 1, 0, 0, 0, 0, 0x50, 0x10, 0x20, 0, 0, 0, 0, 0]
    } else {
        vec![0x04, 0xd2, 0x16, 0x2e, 0, 8 + payload.len() as u8, 0, 0]
    };
    let mut raw = vec![0x60, 0, 0, 0, 0, (transport.len() + payload.len()) as u8, next_header, 64];
    raw.extend_from_slice(&[0xa1; 16]);
    raw.extend_from_slice(&[0xb2; 16]);
    raw.extend_from_slice(&transport);
    raw.extend_from_slice(payload);
    raw
}

fn open(next_header: u8, now: u64) -> (Ipv6Connection, SocketRequest) {
    let mut raw = request(next_header, &[]);
    let packet = IpPacket::parse(&mut raw).unwrap();
    let id = ConnectionId::from_packet(&packet).unwrap();
    Ipv6Connection::create(id, packetizer(&packet), &DNS, now).unwrap()
}

fn packetizer(packet: &IpPacket) -> Ipv6Packetizer {
    match packet {
        IpPacket::Ipv6(packet) => {
            Ipv6Packetizer::new(&packet.ipv6_header(), &packet.transport_header())
        }
        IpPacket::Ipv4(_) => panic!("expected an IPv6 packet"),
    }
}

#[test]
fn tcp_flow_asks_for_a_stream() {
    let (flow, request) = open(6, 0);
    let destination = SocketAddr::V6(SocketAddrV6 { ip: [0xb2; 16], port: 5678 });
    assert_eq!(SocketRequest::Tcp { destination }, request);
    assert_eq!(Socket::Tcp, flow.socket());
    assert_eq!(Protocol::Tcp, flow.id().protocol());
    assert!(!flow.is_closed());
}

#[test]
fn udp_flow_asks_for_a_bound_socket() {
    let (flow, request) = open(17, 0);
    let destination = SocketAddr::V6(SocketAddrV6 { ip: [0xb2; 16], port: 5678 });
    let bind = SocketAddr::V6(SocketAddrV6 { ip: [0; 16], port: 0 });
    assert_eq!(SocketRequest::Udp { bind, destination }, request);
    assert_eq!(Socket::Udp, flow.socket());
}

#[test]
fn other_protocols_have_no_flow() {
    let mut raw = request(17, &[]);
    let packet = IpPacket::parse(&mut raw).unwrap();
    let address = SocketAddr::V6(SocketAddrV6 { ip: [1; 16], port: 0 });
    let id = ConnectionId::new(Protocol::Other, address, address);
    let error = match Ipv6Connection::create(id, packetizer(&packet), &DNS, 0) {
        Ok(_) => panic!("expected an error"),
        Err(error) => error,
    };
    assert_eq!(ErrorKind::InvalidInput, error.kind);
    assert_eq!("unsupported protocol", error.message);
}

#[test]
fn received_bytes_go_to_the_client_as_one_packet() {
    for next_header in [6, 17] {
        let (mut flow, _) = open(next_header, 0);
        let reaction = flow.on_ready(ReadOutcome::Received(&[1, 2, 3]), SECOND);
        assert!(!reaction.deregister);
        assert!(!reaction.remove_from_router);
        let mut raw = reaction.to_client.unwrap();
        match IpPacket::parse(&mut raw).unwrap() {
            IpPacket::Ipv6(packet) => {
                assert_eq!(Some(&[1, 2, 3][..]), packet.payload());
                assert_eq!([0xb2; 16], packet.ipv6_header().source());
                assert_eq!([0xa1; 16], packet.ipv6_header().destination());
                assert_eq!(5678, packet.transport_header().source_port());
            }
            IpPacket::Ipv4(_) => panic!("expected an IPv6 packet"),
        };
    }
}

#[test]
fn end_of_a_tcp_stream_closes_the_flow() {
    let (mut flow, _) = open(6, 0);
    let reaction = flow.on_ready(ReadOutcome::Received(&[]), 0);
    assert!(reaction.to_client.is_none());
    assert!(reaction.deregister);
    assert!(reaction.remove_from_router);
    assert!(flow.is_closed());
}

#[test]
fn empty_datagram_is_a_packet() {
    let (mut flow, _) = open(17, 0);
    let reaction = flow.on_ready(ReadOutcome::Received(&[]), 0);
    assert_eq!(48, reaction.to_client.unwrap().len());
    assert!(!reaction.deregister);
    assert!(!flow.is_closed());
}

#[test]
fn spurious_event_is_ignored() {
    let (mut flow, _) = open(6, 0);
    let reaction = flow.on_ready(ReadOutcome::WouldBlock, 500 * SECOND);
    assert!(reaction.to_client.is_none());
    assert!(!reaction.deregister);
    assert!(!reaction.remove_from_router);
    assert!(!flow.is_closed());
    assert!(flow.is_expired(500 * SECOND));
}

#[test]
fn failed_read_closes_the_flow() {
    let (mut flow, _) = open(17, 0);
    let reaction = flow.on_ready(ReadOutcome::Failed, 0);
    assert!(reaction.to_client.is_none());
    assert!(reaction.deregister);
    assert!(reaction.remove_from_router);
    assert!(flow.is_closed());
}

#[test]
fn closed_flow_is_silent() {
    let (mut flow, _) = open(17, 0);
    assert!(flow.wants_read(true));
    assert!(!flow.wants_read(false));
    assert!(flow.close());
    assert!(!flow.wants_read(true));
    let reaction = flow.on_ready(ReadOutcome::Received(&[1]), 0);
    assert!(reaction.to_client.is_none());
    assert!(!reaction.deregister);
    assert!(!reaction.remove_from_router);
    assert!(flow.is_closed());
}

#[test]
fn socket_is_deregistered_once() {
    let (mut flow, _) = open(6, 0);
    let mut deregistered: usize = 0;
    for outcome in [ReadOutcome::Received(&[1]), ReadOutcome::Failed, ReadOutcome::Received(&[])] {
        if flow.on_ready(outcome, 0).deregister {
            deregistered += 1;
        }
        if flow.is_closed() && flow.close() {
            deregistered += 1;
        }
    }
    assert_eq!(1, deregistered);
}

#[test]
fn payload_of_the_client_goes_to_the_socket() {
    let (mut flow, _) = open(17, 0);
    let mut raw = request(17, &[5, 6, 7]);
    let packet = IpPacket::parse(&mut raw).unwrap();
    assert_eq!(Some(&[5, 6, 7][..]), flow.send_to_network(&packet, SECOND));
    let mut raw = request(17, &[]);
    let packet = IpPacket::parse(&mut raw).unwrap();
    assert_eq!(None, flow.send_to_network(&packet, SECOND));
}

#[test]
fn ipv4_packet_is_none_of_the_flows_business() {
    let (mut flow, _) = open(17, 0);
    let mut raw = vec![
        0x45, 0, 0, 29, 0, 0, 0, 0, 64, 17, 0, 0, 10, 1, 1, 1, 198, 51, 100, 2, // IPv4
        0x04, 0xd2, 0x16, 0x2e, 0, 9, 0, 0, 1, // UDP
    ];
    let packet = IpPacket::parse(&mut raw).unwrap();
    assert_eq!(None, flow.send_to_network(&packet, 100 * SECOND));
    assert!(flow.is_expired(121 * SECOND));
}

#[test]
fn failed_write_closes_the_flow() {
    let (mut flow, _) = open(17, 0);
    flow.on_write(WriteOutcome::Written);
    flow.on_write(WriteOutcome::WouldBlock);
    assert!(!flow.is_closed());
    flow.on_write(WriteOutcome::Failed);
    assert!(flow.is_closed());
    assert!(!flow.close());
}

#[test]
fn idle_flow_expires_after_two_minutes() {
    let (flow, _) = open(17, 10 * SECOND);
    assert!(!flow.is_expired(0));
    assert!(!flow.is_expired(130 * SECOND));
    assert!(!flow.is_expired(131 * SECOND - 1));
    assert!(flow.is_expired(131 * SECOND));
}

#[test]
fn traffic_keeps_a_flow() {
    let (mut flow, _) = open(17, 0);
    flow.on_ready(ReadOutcome::Received(&[1]), 100 * SECOND);
    assert!(!flow.is_expired(220 * SECOND));
    let mut raw = request(17, &[]);
    let packet = IpPacket::parse(&mut raw).unwrap();
    flow.send_to_network(&packet, 200 * SECOND);
    assert!(!flow.is_expired(320 * SECOND));
    assert!(flow.is_expired(321 * SECOND));
}

#[test]
fn reads_leave_room_for_the_headers() {
    assert_eq!(0x1_0000 - 60, open(6, 0).0.read_limit());
    assert_eq!(0x1_0000 - 48, open(17, 0).0.read_limit());
}
