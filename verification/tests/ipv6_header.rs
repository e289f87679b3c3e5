use relay::ip_packet::PacketParseError;
use relay::ipv6_header::{Ipv6HeaderData, Ipv6HeaderError};

fn header(payload_length: u16) -> Vec<u8> {
    let mut raw = vec![0x60, 0, 0, 0];
    raw.extend_from_slice(&payload_length.to_be_bytes());
    raw.extend_from_slice(&[17, 64]);
    raw.extend_from_slice(&[0xa1; 16]);
    raw.extend_from_slice(&[0xb2; 16]);
    raw
}

fn fault(raw: &[u8]) -> Option<Ipv6HeaderError> {
    Ipv6HeaderData::parse(raw).err()
}

#[test]
fn header_fields_are_read() {
    let mut raw = header(0x0102);
    raw.resize(40 + 0x0102, 0);
    let data = Ipv6HeaderData::parse(&raw).unwrap();
    assert_eq!(0x0102, data.payload_length());
    assert_eq!(40 + 0x0102, data.total_length());
    assert_eq!(17, data.next_header());
    assert_eq!([0xa1; 16], data.source());
    assert_eq!([0xb2; 16], data.destination());
}

#[test]
fn header_faults_are_told_apart() {
    assert_eq!(Some(Ipv6HeaderError::TruncatedHeader), fault(&header(0)[..39]));
    let mut raw = header(0);
    raw[0] = 0x4f;
    assert_eq!(Some(Ipv6HeaderError::InvalidVersion), fault(&raw));
    assert_eq!(Some(Ipv6HeaderError::TruncatedPayload), fault(&header(1)));
    assert_eq!(None, fault(&header(0)));
}

#[test]
fn header_alone_needs_no_payload() {
    let data = Ipv6HeaderData::parse_header_only(&header(1000)).unwrap();
    assert_eq!(1000, data.payload_length());
    assert!(matches!(
        Ipv6HeaderData::parse_header_only(&[0x60; 39]),
        Err(Ipv6HeaderError::TruncatedHeader)
    ));
    assert!(matches!(
        Ipv6HeaderData::parse_header_only(&[0x70; 40]),
        Err(Ipv6HeaderError::InvalidVersion)
    ));
}

#[test]
fn bound_header_shows_bytes_and_fields() {
    let raw = header(0);
    let data = Ipv6HeaderData::parse(&raw).unwrap();
    let bound = data.bind(&raw);
    assert_eq!(raw, bound.raw());
    assert_eq!(0, bound.payload_length());
    assert_eq!(17, bound.next_header());
    assert_eq!([0xa1; 16], bound.source());
    assert_eq!([0xb2; 16], bound.destination());
    assert_eq!(17, bound.data().next_header());
}

#[test]
fn header_faults_become_packet_faults() {
    for (fault, message) in [
        (Ipv6HeaderError::TruncatedHeader, "truncated IPv6 packet"),
        (Ipv6HeaderError::TruncatedPayload, "truncated IPv6 packet"),
        (Ipv6HeaderError::InvalidVersion, "invalid IPv6 version"),
    ] {
        assert_eq!(PacketParseError::Malformed(message), PacketParseError::from(fault));
    }
}
