use byteorder::{BigEndian, WriteBytesExt};
use relay::error::ErrorKind;
use relay::ip_packet_buffer::IpPacketBuffer;
use relay::ipv4_header::{Ipv4HeaderData, Protocol};
use relay::ipv4_packet::{Ipv4Packet, MAX_PACKET_LENGTH};
use relay::ipv4_packet_buffer::Ipv4PacketBuffer;
use relay::transport_header::TransportHeaderData;

fn create_packet() -> Vec<u8> {
    let mut raw = Vec::new();
    write_packet_to(&mut raw);
    raw
}

fn write_packet_to(raw: &mut Vec<u8>) {
    raw.write_u8(4u8 << 4 | 5).unwrap();
    raw.write_u8(0).unwrap(); // ToS
    raw.write_u16::<BigEndian>(32).unwrap(); // total length 20 + 8 + 4
    raw.write_u32::<BigEndian>(0).unwrap(); // id_flags_fragment_offset
    raw.write_u8(0).unwrap(); // TTL
    raw.write_u8(17).unwrap(); // protocol (UDP)
    raw.write_u16::<BigEndian>(0).unwrap(); // checksum
    raw.write_u32::<BigEndian>(0x12345678).unwrap(); // source address
    raw.write_u32::<BigEndian>(0x42424242).unwrap(); // destination address

    raw.write_u16::<BigEndian>(1234).unwrap(); // source port
    raw.write_u16::<BigEndian>(5678).unwrap(); // destination port
    raw.write_u16::<BigEndian>(12).unwrap(); // length
    raw.write_u16::<BigEndian>(0).unwrap(); // checksum

    raw.write_u32::<BigEndian>(0x11223344).unwrap(); // payload
}

fn write_another_packet_to(raw: &mut Vec<u8>) {
    raw.write_u8(4u8 << 4 | 5).unwrap();
    raw.write_u8(0).unwrap(); // ToS
    raw.write_u16::<BigEndian>(29).unwrap(); // total length 20 + 8 + 1
    raw.write_u32::<BigEndian>(0).unwrap(); // id_flags_fragment_offset
    raw.write_u8(0).unwrap(); // TTL
    raw.write_u8(17).unwrap(); // protocol (UDP)
    raw.write_u16::<BigEndian>(0).unwrap(); // checksum
    raw.write_u32::<BigEndian>(0x11111111).unwrap(); // source address
    raw.write_u32::<BigEndian>(0x22222222).unwrap(); // destination address

    raw.write_u16::<BigEndian>(1111).unwrap(); // source port
    raw.write_u16::<BigEndian>(2222).unwrap(); // destination port
    raw.write_u16::<BigEndian>(9).unwrap(); // length
    raw.write_u16::<BigEndian>(0).unwrap(); // checksum

    raw.write_u8(0x99).unwrap(); // payload
}

fn check_packet_headers(ipv4_packet: &Ipv4Packet) {
    let ipv4_header = ipv4_packet.ipv4_header();
    assert_eq!(20, ipv4_header.header_length());
    assert_eq!(32, ipv4_header.total_length());
    assert_eq!(Protocol::Udp, ipv4_header.protocol());
    assert_eq!(0x12345678, ipv4_header.source());
    assert_eq!(0x42424242, ipv4_header.destination());

    if let Some(TransportHeaderData::Udp(udp_header)) = ipv4_packet.transport_header_data() {
        assert_eq!(1234, udp_header.source_port());
        assert_eq!(5678, udp_header.destination_port());
    } else {
        panic!("No UDP transport header");
    }
}

fn check_another_packet_headers(ipv4_packet: &Ipv4Packet) {
    let ipv4_header = ipv4_packet.ipv4_header();
    assert_eq!(20, ipv4_header.header_length());
    assert_eq!(29, ipv4_header.total_length());
    assert_eq!(Protocol::Udp, ipv4_header.protocol());
    assert_eq!(0x11111111, ipv4_header.source());
    assert_eq!(0x22222222, ipv4_header.destination());

    if let Some(TransportHeaderData::Udp(udp_header)) = ipv4_packet.transport_header_data() {
        assert_eq!(1111, udp_header.source_port());
        assert_eq!(2222, udp_header.destination_port());
    } else {
        panic!("No UDP transport header");
    }
}

fn create_multi_packets() -> Vec<u8> {
    let mut raw = Vec::new();
    write_packet_to(&mut raw);
    write_another_packet_to(&mut raw);
    write_packet_to(&mut raw);
    raw
}

/// A buffer that received these bytes and nothing else.
fn filled(raw: &[u8]) -> Ipv4PacketBuffer {
    let mut buffer = Ipv4PacketBuffer::new();
    assert!(buffer.read_from(raw));
    buffer
}

#[test]
fn malformed_stream_cannot_reach_unchecked_parsers() {
    for raw in [vec![0x60, 0, 0, 20], vec![0x45, 0, 0, 0], vec![0x4f, 0, 0, 20]] {
        let mut buffer = Ipv4PacketBuffer::new();
        buffer.read_from(&raw);
        assert!(buffer.validate_front().is_err());
    }
    let mut raw = create_packet();
    raw[24] = 0;
    raw[25] = 7;
    let mut buffer = Ipv4PacketBuffer::new();
    buffer.read_from(&raw);
    assert!(buffer.validate_front().is_err());
}

#[test]
fn validates_next_coalesced_frame_and_identifies_fragments() {
    let mut raw = create_packet();
    raw[6] = 0x20;
    raw.extend_from_slice(&[0x45, 0, 0, 0]);
    let mut buffer = Ipv4PacketBuffer::new();
    buffer.read_from(&raw);
    assert!(buffer.validate_front().is_ok());
    assert!(buffer.is_fragmented());
    buffer.next();
    assert!(buffer.validate_front().is_err());
}

#[test]
fn parse_ipv4_packet_buffer() {
    let raw = create_packet();
    let mut packet_buffer = Ipv4PacketBuffer::new();

    packet_buffer.read_from(&raw);

    let packet = packet_buffer.as_ipv4_packet().unwrap();
    check_packet_headers(&packet);
}

#[test]
fn parse_fragmented_ipv4_packet_buffer() {
    let raw = create_packet();
    let mut packet_buffer = Ipv4PacketBuffer::new();

    packet_buffer.read_from(&raw[..14]);

    assert!(packet_buffer.as_ipv4_packet().is_none());

    packet_buffer.read_from(&raw[14..]);

    let packet = packet_buffer.as_ipv4_packet().unwrap();
    check_packet_headers(&packet);
}

#[test]
fn parse_multi_packets() {
    let raw = create_multi_packets();
    let mut packet_buffer = Ipv4PacketBuffer::new();

    packet_buffer.read_from(&raw);

    check_packet_headers(&packet_buffer.as_ipv4_packet().unwrap());
    packet_buffer.next();
    check_another_packet_headers(&packet_buffer.as_ipv4_packet().unwrap());
    packet_buffer.next();
    check_packet_headers(&packet_buffer.as_ipv4_packet().unwrap());
    packet_buffer.next();

    assert!(packet_buffer.as_ipv4_packet().is_none());
}

#[test]
fn refusal_names_its_kind_and_reason() {
    let error = filled(&[0x45, 0, 0, 19]).validate_front().unwrap_err();
    assert_eq!(ErrorKind::InvalidData, error.kind);
    assert_eq!("Malformed IP/transport frame", error.message);
}

#[test]
fn fewer_than_four_bytes_are_never_refused() {
    assert!(filled(&[0x60, 0, 0]).validate_front().is_ok());
    assert!(!filled(&[0x60, 0, 0]).is_fragmented());
}

#[test]
fn incomplete_frame_is_judged_by_its_lengths_only() {
    // The transport header has not arrived yet.
    let mut raw = create_packet();
    raw[25] = 7;
    assert!(filled(&raw[..31]).validate_front().is_ok());
    assert!(filled(&raw).validate_front().is_err());
}

#[test]
fn malformed_frame_stays_malformed_with_more_bytes() {
    let mut raw = create_packet();
    raw[25] = 7;
    raw.extend_from_slice(&create_packet());
    assert!(filled(&raw).validate_front().is_err());
}

#[test]
fn tcp_header_lengths_are_checked() {
    let mut raw = vec![
        0x45, 0, 0, 40, 0, 0, 0, 0, 64, 6, 0, 0, 1, 2, 3, 4, 5, 6, 7, 8, // IPv4
        0, 80, 4, 0, 0, 0, 0, 0, 0, 0, 0, 0, 0x50, 0, 0, 0, 0, 0, 0, 0, // TCP
    ];
    assert!(filled(&raw).validate_front().is_ok());
    raw[32] = 0x40;
    assert!(filled(&raw).validate_front().is_err());
    raw[32] = 0x60;
    assert!(filled(&raw).validate_front().is_err());
    raw[32] = 0x50;
    raw[3] = 39;
    assert!(filled(&raw).validate_front().is_err());
}

#[test]
fn udp_header_must_fit() {
    let mut raw = create_packet();
    raw[3] = 27;
    assert!(filled(&raw).validate_front().is_err());
}

#[test]
fn other_protocols_are_framed_without_a_transport_header() {
    let mut raw = create_packet();
    raw[9] = 1;
    let mut buffer = filled(&raw);
    assert!(buffer.validate_front().is_ok());
    let packet = buffer.as_ipv4_packet().unwrap();
    assert_eq!(Protocol::Other, packet.ipv4_header().protocol());
    assert!(packet.transport_header_data().is_none());
    assert_eq!(32, packet.length());
}

#[test]
fn fragment_offset_marks_a_fragment() {
    for (high, low, expected) in
        [(0x00, 0, false), (0x40, 0, false), (0x80, 0, false), (0x20, 0, true), (0x01, 0, true), (0, 1, true)]
    {
        let mut raw = create_packet();
        raw[6] = high;
        raw[7] = low;
        assert_eq!(expected, filled(&raw).is_fragmented());
    }
}

#[test]
fn both_buffers_judge_ipv4_alike() {
    let mut damaged = create_packet();
    damaged[25] = 7;
    let mut fragment = create_packet();
    fragment[6] = 0x20;
    for raw in [create_packet(), damaged, fragment, create_packet()[..30].to_vec()] {
        let ipv4_only = filled(&raw);
        let mut both = IpPacketBuffer::new();
        both.read_from(&raw);
        let refused = match both.packet() {
            Ok(_) => false,
            Err(error) => matches!(error, relay::ip_packet::PacketParseError::Malformed(_)),
        };
        assert_eq!(refused, ipv4_only.validate_front().is_err());
    }
}

#[test]
fn buffer_knows_its_room() {
    let mut buffer = Ipv4PacketBuffer::new();
    assert_eq!(MAX_PACKET_LENGTH, buffer.remaining());
    assert_eq!(0x1_0000, MAX_PACKET_LENGTH);
    assert!(!buffer.read_from(&[]));
    assert!(buffer.read_from(&create_packet()));
    assert_eq!(MAX_PACKET_LENGTH - 32, buffer.remaining());
    buffer.next();
    assert_eq!(MAX_PACKET_LENGTH, buffer.remaining());
}

#[test]
fn ipv4_header_fields_are_read_in_network_order() {
    let data = Ipv4HeaderData::parse(&create_packet());
    assert_eq!(20, data.header_length());
    assert_eq!(32, data.total_length());
    assert_eq!(0x12345678, data.source());
    assert_eq!(0x42424242, data.destination());
}
