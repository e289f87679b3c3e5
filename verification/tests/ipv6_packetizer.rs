use byteorder::{BigEndian, ByteOrder};
use relay::checksum::ipv6_checksum;
use relay::ip_packet::IpPacket;
use relay::ipv6_header::IPV6_HEADER_LENGTH;
use relay::ipv6_packet::Ipv6Packet;
use relay::ipv6_packetizer::Ipv6Packetizer;

const TCP: [u8; 20] = [
    0x04, 0xd2, 0x16, 0x2e, // ports
    0, 0, 0, 1, // sequence
    0, 0, 0, 0, // ack
    0x50, 0x10, 0x20, 0x00, // data offset, flags, window
    0, 0, 0, 0, // checksum, urgent
];

const UDP: [u8; 8] = [0x04, 0xd2, 0x16, 0x2e, 0, 8, 0, 0];

fn reference(next_header: u8, transport: &[u8]) -> Vec<u8> {
    let mut raw = Vec::with_capacity(IPV6_HEADER_LENGTH + transport.len());
    raw.extend_from_slice(&[0x60, 0, 0, 0]);
    raw.extend_from_slice(&(transport.len() as u16).to_be_bytes());
    raw.push(next_header);
    raw.push(64);
    raw.extend_from_slice(&[0x20, 0x01, 0x0d, 0xb8, 0, 0, 0, 0, 0, 0, 0, 0, 0, 0, 0, 1]);
    raw.extend_from_slice(&[0x20, 0x01, 0x0d, 0xb8, 0, 0, 0, 0, 0, 0, 0, 0, 0, 0, 0, 2]);
    raw.extend_from_slice(transport);
    raw
}

/// Fold a synthesized packet exactly the way a receiver validates it: a correct
/// checksum makes the whole pseudo-header sum collapse to 0xffff.
fn verify(raw: &[u8], next_header: u8) -> u16 {
    let mut sum: u32 = 0;
    for index in (8..40).step_by(2) {
        sum += u32::from(BigEndian::read_u16(&raw[index..index + 2]));
    }
    let transport = &raw[IPV6_HEADER_LENGTH..];
    sum += transport.len() as u32;
    sum += u32::from(next_header);
    let mut chunks = transport.chunks_exact(2);
    for pair in &mut chunks {
        sum += u32::from(BigEndian::read_u16(pair));
    }
    if let Some(&last) = chunks.remainder().first() {
        sum += u32::from(last) << 8;
    }
    while sum >> 16 != 0 {
        sum = (sum & 0xffff) + (sum >> 16);
    }
    sum as u16
}

fn packetizer(input: &mut [u8]) -> Ipv6Packetizer {
    let packet = match IpPacket::parse(input).unwrap() {
        IpPacket::Ipv6(packet) => packet,
        IpPacket::Ipv4(_) => panic!("expected an IPv6 packet"),
    };
    let header = packet.ipv6_header();
    let transport_header = packet.transport_header();
    Ipv6Packetizer::new(&header, &transport_header)
}

fn packetize(next_header: u8, transport: &[u8], payload: &[u8]) -> Vec<u8> {
    let mut input = reference(next_header, transport);
    packetizer(&mut input).packetize(payload).raw().to_vec()
}

#[test]
fn tcp_response_carries_a_valid_pseudo_header_checksum() {
    let tcp = [
        0x04, 0xd2, 0x16, 0x2e, // ports
        0, 0, 0, 1, // sequence
        0, 0, 0, 0, // ack
        0x50, 0x10, 0x20, 0x00, // data offset, flags, window
        0, 0, 0, 0, // checksum, urgent
    ];
    let raw = packetize(6, &tcp, &[0xde, 0xad, 0xbe, 0xef]);
    assert_eq!(0xffff, verify(&raw, 6));
    // The checksum must actually have been written.
    assert_ne!(0, BigEndian::read_u16(&raw[IPV6_HEADER_LENGTH + 16..][..2]));
}

#[test]
fn odd_length_payload_is_padded_when_folding() {
    let udp = [0x04, 0xd2, 0x16, 0x2e, 0, 8, 0, 0];
    let raw = packetize(17, &udp, &[0x01, 0x02, 0x03]);
    assert_eq!(0xffff, verify(&raw, 17));
    assert_eq!(11, BigEndian::read_u16(&raw[4..6]));
}

#[test]
fn payload_length_is_rewritten_for_every_packet() {
    let udp = [0x04, 0xd2, 0x16, 0x2e, 0, 8, 0, 0];
    let mut input = reference(17, &udp);
    let packet = match IpPacket::parse(&mut input).unwrap() {
        IpPacket::Ipv6(packet) => packet,
        IpPacket::Ipv4(_) => panic!("expected an IPv6 packet"),
    };
    let header = packet.ipv6_header();
    let transport_header = packet.transport_header();
    let mut packetizer = Ipv6Packetizer::new(&header, &transport_header);

    // A long packet followed by a short one must not leave stale length bytes.
    let long = packetizer.packetize(&[0x11; 40]).raw().to_vec();
    assert_eq!(48, BigEndian::read_u16(&long[4..6]));
    assert_eq!(0xffff, verify(&long, 17));

    let short = packetizer.packetize(&[0x22]).raw().to_vec();
    assert_eq!(9, BigEndian::read_u16(&short[4..6]));
    assert_eq!(0xffff, verify(&short, 17));
}

#[test]
fn icmpv6_checksum_folds_to_all_ones_at_the_receiver() {
    let source = [0x20, 0x01, 0x0d, 0xb8, 0, 0, 0, 0, 0, 0, 0, 0, 0, 0, 0, 2];
    let destination = [0x20, 0x01, 0x0d, 0xb8, 0, 0, 0, 0, 0, 0, 0, 0, 0, 0, 0, 1];
    // Type 1, code 1, zeroed checksum, unused word, then an odd-length quote.
    let mut icmp = vec![1u8, 1, 0, 0, 0, 0, 0, 0, 0x60, 0x11, 0x22];
    let checksum: u16 = ipv6_checksum(&source, &destination, 58, &icmp);
    icmp[2] = (checksum >> 8) as u8;
    icmp[3] = (checksum & 0xff) as u8;

    let mut verify: u32 = 0;
    for index in (0..16).step_by(2) {
        verify += u32::from(u16::from_be_bytes([source[index], source[index + 1]]));
        verify += u32::from(u16::from_be_bytes([destination[index], destination[index + 1]]));
    }
    verify += icmp.len() as u32;
    verify += 58;
    let mut chunks = icmp.chunks_exact(2);
    for pair in &mut chunks {
        verify += u32::from(u16::from_be_bytes([pair[0], pair[1]]));
    }
    if let Some(&last) = chunks.remainder().first() {
        verify += u32::from(last) << 8;
    }
    while verify >> 16 != 0 {
        verify = (verify & 0xffff) + (verify >> 16);
    }
    assert_eq!(0xffff, verify as u16);
}

#[test]
fn endpoints_are_swapped_towards_the_client() {
    let udp = [0x04, 0xd2, 0x16, 0x2e, 0, 8, 0, 0];
    let raw = packetize(17, &udp, &[0xaa]);
    // Source/destination addresses are mirrored.
    assert_eq!(&raw[8..24], &reference(17, &udp)[24..40]);
    assert_eq!(&raw[24..40], &reference(17, &udp)[8..24]);
    // Ports are mirrored too.
    assert_eq!(0x162e, BigEndian::read_u16(&raw[IPV6_HEADER_LENGTH..][..2]));
    assert_eq!(0x04d2, BigEndian::read_u16(&raw[IPV6_HEADER_LENGTH + 2..][..2]));
}

fn ipv6_packet(next_header: u8, transport: &[u8]) -> Vec<u8> {
    let mut raw = reference(next_header, transport);
    raw[24..40].copy_from_slice(&[0, 0, 0, 0, 0, 0, 0, 0, 0, 0, 0, 0, 0, 0, 0, 1]);
    raw
}

#[test]
fn ipv6_packetizer_swaps_udp_endpoints_and_writes_a_pseudo_header_checksum() {
    let mut input = ipv6_packet(17, &[0x04, 0xd2, 0x16, 0x2e, 0, 8, 0, 0]);
    let packet = match IpPacket::parse(&mut input).unwrap() {
        IpPacket::Ipv6(packet) => packet,
        IpPacket::Ipv4(_) => panic!("expected an IPv6 packet"),
    };
    let header = packet.ipv6_header();
    let transport = packet.transport_header();
    let mut packetizer = Ipv6Packetizer::new(&header, &transport);
    let response = packetizer.packetize(&[0xaa, 0xbb]);

    assert_eq!(header.destination(), response.ipv6_header().source());
    assert_eq!(header.source(), response.ipv6_header().destination());
    assert_eq!(Some(&[0xaa, 0xbb][..]), response.payload());
    let raw = response.raw();
    assert_eq!(10, u16::from_be_bytes([raw[44], raw[45]]));
    assert_ne!(0, u16::from_be_bytes([raw[46], raw[47]]));
    assert_eq!(0xffff, checksum_words(&raw[8..24], &raw[24..40], &raw[40..]));
}

fn checksum_words(source: &[u8], destination: &[u8], transport: &[u8]) -> u16 {
    let mut sum: u32 = 0;
    for bytes in [source, destination] {
        for pair in bytes.chunks(2) {
            sum += u32::from(u16::from_be_bytes([pair[0], pair[1]]));
        }
    }
    let length: u32 = transport.len() as u32;
    sum += length >> 16;
    sum += length & 0xffff;
    sum += 17; // next-header UDP
    for pair in transport.chunks(2) {
        sum += if pair.len() == 2 {
            u32::from(u16::from_be_bytes([pair[0], pair[1]]))
        } else {
            u32::from(pair[0]) << 8
        };
    }
    while sum >> 16 != 0 {
        sum = (sum & 0xffff) + (sum >> 16);
    }
    sum as u16
}

#[test]
fn checksums_have_their_exact_values() {
    let raw = packetize(6, &TCP, &[0xde, 0xad, 0xbe, 0xef]);
    assert_eq!([0x7b, 0xbd], raw[56..58]);
    let raw = packetize(17, &UDP, &[0xaa]);
    assert_eq!([0xdf, 0x66], raw[46..48]);
    let raw = packetize(17, &UDP, &[0xde, 0xad, 0xbe, 0xef]);
    assert_eq!([0xeb, 0xc3], raw[46..48]);
    let source = [0x20, 0x01, 0x0d, 0xb8, 0, 0, 0, 0, 0, 0, 0, 0, 0, 0, 0, 2];
    let destination = [0x20, 0x01, 0x0d, 0xb8, 0, 0, 0, 0, 0, 0, 0, 0, 0, 0, 0, 1];
    let icmp = [1, 1, 0, 0, 0, 0, 0, 0, 0x60, 0x11, 0x22];
    assert_eq!(0x2133, ipv6_checksum(&source, &destination, 58, &icmp));
}

#[test]
fn udp_checksum_of_zero_is_sent_as_all_ones() {
    let raw = packetize(17, &UDP, &[0x89, 0x65]);
    assert_eq!([0xff, 0xff], raw[46..48]);
    assert_eq!(0xffff, verify(&raw, 17));
}

#[test]
fn tcp_checksum_of_zero_is_sent_as_it_is() {
    let raw = packetize(6, &TCP, &[0x19, 0x5d]);
    assert_eq!([0, 0], raw[56..58]);
    assert_eq!(0xffff, verify(&raw, 6));
}

#[test]
fn whole_udp_response_is_as_expected() {
    let mut expected = reference(17, &[0x16, 0x2e, 0x04, 0xd2, 0, 9, 0xdf, 0x66, 0xaa]);
    expected[23] = 2;
    expected[39] = 1;
    assert_eq!(expected, packetize(17, &UDP, &[0xaa]));
}

#[test]
fn stale_checksum_of_the_reference_does_not_matter() {
    let mut udp = UDP;
    udp[6] = 0x12;
    udp[7] = 0x34;
    assert_eq!(packetize(17, &UDP, &[1, 2]), packetize(17, &udp, &[1, 2]));
}

#[test]
fn payload_of_the_reference_is_not_repeated() {
    let long = [0x04, 0xd2, 0x16, 0x2e, 0, 11, 0, 0, 7, 7, 7];
    assert_eq!(packetize(17, &UDP, &[1]), packetize(17, &long, &[1]));
}

#[test]
fn empty_payload_makes_a_packet_of_headers() {
    let mut input = reference(17, &UDP);
    let mut packetizer = packetizer(&mut input);
    let packet = packetizer.packetize_empty_payload();
    assert_eq!(48, packet.length());
    assert_eq!(Some(&[][..]), packet.payload());
    assert_eq!([0x89, 0x69], packet.raw()[46..48]);
}

#[test]
fn end_of_a_stream_makes_no_packet() {
    let mut input = reference(6, &TCP);
    let mut packetizer = packetizer(&mut input);
    assert!(packetizer.packetize_read(&[]).is_none());
    let raw = packetizer.packetize_read(&[0xde, 0xad, 0xbe, 0xef]).unwrap().raw().to_vec();
    assert_eq!(packetize(6, &TCP, &[0xde, 0xad, 0xbe, 0xef]), raw);
}

#[test]
fn tcp_options_are_kept() {
    let mut tcp = [0; 24];
    tcp[..20].copy_from_slice(&TCP);
    tcp[12] = 0x60;
    tcp[20..].copy_from_slice(&[2, 4, 5, 0xb4]);
    let raw = packetize(6, &tcp, &[9]);
    assert_eq!([2, 4, 5, 0xb4, 9], raw[60..]);
    assert_eq!(0xffff, verify(&raw, 6));
}

#[test]
fn largest_payload_fits() {
    let mut input = reference(17, &UDP);
    let mut packetizer = packetizer(&mut input);
    let room: usize = packetizer.read_limit(None);
    assert_eq!(0x1_0000 - 48, room);
    let payload: Vec<u8> = vec![0xff; room];
    let raw = packetizer.packetize(&payload).raw().to_vec();
    assert_eq!(0x1_0000, raw.len());
    assert_eq!(0xffff, verify(&raw, 17));
}

#[test]
fn reads_are_limited_by_room_and_caller() {
    let mut input = reference(6, &TCP);
    let packetizer = packetizer(&mut input);
    assert_eq!(0x1_0000 - 60, packetizer.read_limit(None));
    assert_eq!(1500, packetizer.read_limit(Some(1500)));
    assert_eq!(0x1_0000 - 60, packetizer.read_limit(Some(usize::MAX)));
}

#[test]
fn packet_reads_back() {
    let mut raw = packetize(6, &TCP, &[1, 2, 3]);
    let packet = Ipv6Packet::parse(&mut raw).unwrap();
    assert_eq!(23, packet.ipv6_header_data().payload_length());
    assert_eq!(6, packet.ipv6_header_data().next_header());
    assert_eq!(0x162e, packet.transport_header_data().source_port());
    assert_eq!(0x04d2, packet.transport_header_data().destination_port());
    assert_eq!(Some(&[1, 2, 3][..]), packet.payload());
}
