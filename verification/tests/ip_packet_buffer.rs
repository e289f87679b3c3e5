use byteorder::{BigEndian, WriteBytesExt};
use relay::ip_packet::{
    front_packet_length, IpPacket, PacketParseError, UnsupportedPacket, MAX_IP_PACKET_LENGTH,
};
use relay::ip_packet_buffer::IpPacketBuffer;
use std::convert::TryInto;

fn create_packet() -> Vec<u8> {
    let mut raw = Vec::new();
    raw.write_u8(4u8 << 4 | 5).unwrap();
    raw.write_u8(0).unwrap(); // ToS
    raw.write_u16::<BigEndian>(32).unwrap(); // total length 20 + 8 + 4
    raw.write_u32::<BigEndian>(0).unwrap(); // id_flags_fragment_offset
    raw.write_u8(0).unwrap(); // TTL
    raw.write_u8(17).unwrap(); // protocol (UDP)
    raw.write_u16::<BigEndian>(0).unwrap(); // checksum
    raw.write_u32::<BigEndian>(0x12345678).unwrap(); // source address
    raw.write_u32::<BigEndian>(0x42424242).unwrap(); // destination address

    raw.write_u16::<BigEndian>(1234).unwrap(); // source port
    raw.write_u16::<BigEndian>(5678).unwrap(); // destination port
    raw.write_u16::<BigEndian>(12).unwrap(); // length
    raw.write_u16::<BigEndian>(0).unwrap(); // checksum

    raw.write_u32::<BigEndian>(0x11223344).unwrap(); // payload
    raw
}

fn ipv6_packet(next_header: u8, transport: &[u8]) -> Vec<u8> {
    let mut raw = Vec::with_capacity(40 + transport.len());
    raw.extend_from_slice(&[0x60, 0, 0, 0]);
    raw.write_u16::<BigEndian>(transport.len() as u16).unwrap();
    raw.write_u8(next_header).unwrap();
    raw.write_u8(64).unwrap();
    raw.extend_from_slice(&[0x20, 0x01, 0x0d, 0xb8, 0, 0, 0, 0, 0, 0, 0, 0, 0, 0, 0, 1]);
    raw.extend_from_slice(&[0, 0, 0, 0, 0, 0, 0, 0, 0, 0, 0, 0, 0, 0, 0, 1]);
    raw.extend_from_slice(transport);
    raw
}

/// The error that a packet is refused with.
fn refusal(raw: &[u8]) -> Option<PacketParseError> {
    let mut raw = raw.to_vec();
    let error = match IpPacket::parse(&mut raw) {
        Ok(_) => None,
        Err(error) => Some(error),
    };
    error
}

#[test]
fn unified_framing_parses_fragmented_ipv6_udp() {
    let udp = [0x04, 0xd2, 0x16, 0x2e, 0, 12, 0, 0, 0x11, 0x22, 0x33, 0x44];
    let raw = ipv6_packet(17, &udp);
    let mut buffer = IpPacketBuffer::new();
    buffer.read_from(&raw[..40]);
    assert!(buffer.packet().unwrap().is_none());

    buffer.read_from(&raw[40..]);
    match buffer.packet().unwrap().unwrap() {
        IpPacket::Ipv6(packet) => {
            let header = packet.ipv6_header();
            assert_eq!(52, packet.length());
            assert_eq!(17, header.next_header());
            assert_eq!(0x20010db8, u32::from_be_bytes(header.source()[..4].try_into().unwrap()));
            assert_eq!([0x11, 0x22, 0x33, 0x44], packet.payload().unwrap());
        }
        IpPacket::Ipv4(_) => panic!("expected an IPv6 packet"),
    };
}

#[test]
fn unified_framing_parses_ipv6_tcp() {
    let mut tcp = [0; 20];
    tcp[..4].copy_from_slice(&[0x04, 0xd2, 0x16, 0x2e]);
    tcp[12] = 0x50;
    let raw = ipv6_packet(6, &tcp);
    let mut buffer = IpPacketBuffer::new();
    buffer.read_from(&raw);

    match buffer.packet().unwrap().unwrap() {
        IpPacket::Ipv6(packet) => {
            assert_eq!(60, packet.length());
            let transport = packet.transport_header();
            assert_eq!(1234, transport.source_port());
            assert_eq!(5678, transport.destination_port());
            assert_eq!(Some(&[][..]), packet.payload());
        }
        IpPacket::Ipv4(_) => panic!("expected an IPv6 packet"),
    };
}

#[test]
fn unified_framing_accepts_ipv4_dont_fragment_packets() {
    let mut raw = create_packet();
    raw[6] = 0x40; // DF only; MF and the fragment offset are clear.
    let mut buffer = IpPacketBuffer::new();
    buffer.read_from(&raw);

    match buffer.packet().unwrap().unwrap() {
        IpPacket::Ipv4(packet) => assert_eq!(32, packet.length()),
        IpPacket::Ipv6(_) => panic!("expected an IPv4 packet"),
    };
}

#[test]
fn unified_framing_accepts_the_largest_non_jumbo_ipv6_udp_packet() {
    let mut udp = vec![0; u16::MAX as usize];
    udp[4..6].copy_from_slice(&u16::MAX.to_be_bytes());
    let raw = ipv6_packet(17, &udp);
    let mut buffer = IpPacketBuffer::new();
    buffer.read_from(&raw);

    match buffer.packet().unwrap().unwrap() {
        IpPacket::Ipv6(packet) => assert_eq!(40 + u16::MAX as usize, packet.length()),
        IpPacket::Ipv4(_) => panic!("expected an IPv6 packet"),
    };
}

#[test]
fn unified_framing_reports_ipv6_extension_and_fragment_headers_as_unsupported() {
    for (next_header, expected) in [
        (0, UnsupportedPacket::Ipv6ExtensionHeader(0)),
        (44, UnsupportedPacket::Ipv6FragmentHeader),
    ] {
        let raw = ipv6_packet(next_header, &[0; 8]);
        let mut buffer = IpPacketBuffer::new();
        buffer.read_from(&raw);
        assert!(matches!(
            buffer.packet(),
            Err(PacketParseError::Unsupported(actual)) if actual == expected
        ));
        assert!(buffer.next().unwrap());
    }
}

#[test]
fn unified_framing_rejects_malformed_ipv6_transport_without_panicking() {
    let raw = ipv6_packet(6, &[0; 8]);
    let mut buffer = IpPacketBuffer::new();
    buffer.read_from(&raw);
    assert!(matches!(buffer.packet(), Err(PacketParseError::Malformed("truncated TCP header"))));
}

#[test]
fn unified_packet_parser_rejects_short_ipv4_input_without_panicking() {
    let mut raw = [0x45, 0];
    let result = IpPacket::parse(&mut raw).map(|_| ());
    assert!(matches!(result, Err(PacketParseError::Malformed("truncated IPv4 packet"))));
}

#[test]
fn parser_names_each_malformation() {
    let mut short_udp_length = ipv6_packet(17, &[0, 1, 0, 2, 0, 9, 0, 0]);
    let mut tcp = [0; 20];
    tcp[12] = 0x60;
    let mut version = short_udp_length.clone();
    version[0] = 0x50;
    let mut ipv4_length = create_packet();
    ipv4_length[3] = 33;
    let mut ipv4_udp = create_packet();
    ipv4_udp[25] = 13;
    let mut ipv4_short_udp = create_packet();
    ipv4_short_udp[3] = 27;
    let mut ipv4_short_tcp = create_packet();
    ipv4_short_tcp[9] = 6;
    for (raw, expected) in [
        (vec![], "truncated IP packet"),
        (version, "unsupported IP version"),
        (vec![0x45, 0, 0], "truncated IPv4 packet"),
        (ipv4_length, "invalid IPv4 packet length"),
        (vec![0x44, 0, 0, 4], "invalid IPv4 packet length"),
        (ipv4_udp, "invalid UDP length"),
        (ipv4_short_udp, "truncated UDP header"),
        (ipv4_short_tcp, "truncated TCP header"),
        (short_udp_length[..39].to_vec(), "truncated IPv6 packet"),
        (short_udp_length[..47].to_vec(), "truncated IPv6 packet"),
        (short_udp_length.clone(), "invalid UDP length"),
        (ipv6_packet(17, &[0; 7]), "truncated UDP header"),
        (ipv6_packet(6, &tcp), "invalid TCP header length"),
        (ipv6_packet(6, &[0; 20]), "invalid TCP header length"),
    ] {
        assert_eq!(Some(PacketParseError::Malformed(expected)), refusal(&raw));
    }
    short_udp_length[45] = 8;
    assert_eq!(None, refusal(&short_udp_length));
}

#[test]
fn parser_names_each_unsupported_packet() {
    for extension in [0, 43, 50, 51, 60, 135] {
        assert_eq!(
            Some(PacketParseError::Unsupported(UnsupportedPacket::Ipv6ExtensionHeader(extension))),
            refusal(&ipv6_packet(extension, &[0; 8]))
        );
    }
    assert_eq!(
        Some(PacketParseError::Unsupported(UnsupportedPacket::Ipv6FragmentHeader)),
        refusal(&ipv6_packet(44, &[0; 8]))
    );
    assert_eq!(
        Some(PacketParseError::Unsupported(UnsupportedPacket::Ipv6NextHeader(58))),
        refusal(&ipv6_packet(58, &[0; 8]))
    );
    for (high, low) in [(0x20, 0), (0x1f, 0), (0, 1)] {
        let mut raw = create_packet();
        raw[6] = high;
        raw[7] = low;
        assert_eq!(
            Some(PacketParseError::Unsupported(UnsupportedPacket::Ipv4Fragment)),
            refusal(&raw)
        );
    }
}

#[test]
fn front_length_is_known_once_the_packet_is_there() {
    assert_eq!(Ok(None), front_packet_length(&[]));
    let ipv4 = create_packet();
    assert_eq!(Ok(None), front_packet_length(&ipv4[..3]));
    assert_eq!(Ok(None), front_packet_length(&ipv4[..31]));
    assert_eq!(Ok(Some(32)), front_packet_length(&ipv4));
    let ipv6 = ipv6_packet(58, &[1, 2, 3]);
    assert_eq!(Ok(None), front_packet_length(&ipv6[..5]));
    assert_eq!(Ok(None), front_packet_length(&ipv6[..42]));
    assert_eq!(Ok(Some(43)), front_packet_length(&ipv6));
    assert_eq!(
        Err(PacketParseError::Malformed("invalid IPv4 packet length")),
        front_packet_length(&[0x45, 0, 0, 19])
    );
    assert_eq!(
        Err(PacketParseError::Malformed("unsupported IP version")),
        front_packet_length(&[0x70])
    );
}

#[test]
fn decided_front_does_not_depend_on_what_follows() {
    let mut raw = create_packet();
    raw.extend_from_slice(&[0xff; 100]);
    assert_eq!(Ok(Some(32)), front_packet_length(&raw));
    match IpPacket::parse(&mut raw) {
        Ok(packet) => {
            assert_eq!(create_packet(), packet.raw());
            assert_eq!(32, packet.length());
        }
        Err(_) => panic!("expected a packet"),
    };
}

#[test]
fn packet_arrives_with_its_last_byte() {
    let raw = ipv6_packet(17, &[0, 1, 0, 2, 0, 9, 0, 0, 0x5a]);
    let mut buffer = IpPacketBuffer::new();
    for i in 0..raw.len() {
        assert!(matches!(buffer.packet(), Ok(None)));
        assert!(!buffer.next().unwrap());
        assert!(buffer.read_from(&raw[i..i + 1]));
    }
    assert_eq!(raw, buffer.packet().unwrap().unwrap().raw());
}

#[test]
fn packets_come_out_as_they_were_sent() {
    let packets = [
        create_packet(),
        ipv6_packet(17, &[0, 1, 0, 2, 0, 8, 0, 0]),
        create_packet(),
        ipv6_packet(17, &[0, 1, 0, 2, 0, 9, 0, 0, 0x5a]),
    ];
    let mut buffer = IpPacketBuffer::new();
    for packet in &packets {
        buffer.read_from(packet);
    }
    for packet in &packets {
        assert_eq!(*packet, buffer.packet().unwrap().unwrap().raw());
        assert!(buffer.next().unwrap());
    }
    assert!(buffer.packet().unwrap().is_none());
    assert_eq!(MAX_IP_PACKET_LENGTH, buffer.remaining());
}

#[test]
fn unsupported_packet_does_not_hold_up_the_next_one() {
    let mut buffer = IpPacketBuffer::new();
    buffer.read_from(&ipv6_packet(58, &[0; 8]));
    buffer.read_from(&create_packet());
    assert!(buffer.packet().is_err());
    assert!(buffer.next().unwrap());
    assert_eq!(create_packet(), buffer.packet().unwrap().unwrap().raw());
}

#[test]
fn malformed_stream_cannot_be_dropped() {
    let mut buffer = IpPacketBuffer::new();
    buffer.read_from(&[0x45, 0, 0, 19, 1, 2]);
    assert_eq!(
        Err(PacketParseError::Malformed("invalid IPv4 packet length")),
        buffer.next()
    );
    assert_eq!(MAX_IP_PACKET_LENGTH - 6, buffer.remaining());
}

#[test]
fn full_buffer_never_waits() {
    assert_eq!(65575, MAX_IP_PACKET_LENGTH);
    let mut raw = ipv6_packet(17, &vec![0; u16::MAX as usize]);
    assert_eq!(MAX_IP_PACKET_LENGTH, raw.len());
    let mut buffer = IpPacketBuffer::new();
    buffer.read_from(&raw);
    assert_eq!(0, buffer.remaining());
    assert!(!matches!(buffer.packet(), Ok(None)));
    raw[0] = 0x10;
    assert!(front_packet_length(&raw).is_err());
}
