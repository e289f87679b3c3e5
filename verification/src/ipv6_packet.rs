//! IPv6 packets that carry TCP or UDP.

use crate::ip_packet::{PacketParseError, UnsupportedPacket};
use crate::ipv4_header::{protocol_from_number, protocol_of, Protocol};
use crate::ipv6_header::{
    ipv6_header_with_payload, Ipv6Fields, Ipv6Header, Ipv6HeaderData, Ipv6HeaderError,
    IPV6_HEADER_LENGTH,
};
use crate::transport_header::{
    check_segment, segment_fault, transport_fields, TransportFields, TransportHeader,
    TransportHeaderData,
};
use vstd::prelude::*;

verus! {

pub struct Ipv6Packet<'a> {
    raw: &'a mut [u8],
    ipv6_header_data: Ipv6HeaderData,
    transport_header_data: TransportHeaderData,
}

/// The mathematical reading of an [`Ipv6Packet`].
#[verifier::ext_equal]
pub struct Ipv6PacketView {
    pub raw: Seq<u8>,
    pub header: Ipv6Fields,
    pub transport: TransportFields,
}

/// Why a packet with this next header cannot be relayed, if it cannot.
pub open spec fn unsupported_next_header(next_header: u8) -> Option<UnsupportedPacket> {
    if next_header == 6 || next_header == 17 {
        None
    } else if next_header == 44 {
        Some(UnsupportedPacket::Ipv6FragmentHeader)
    } else if next_header == 0 || next_header == 43 || next_header == 50 || next_header == 51
        || next_header == 60 || next_header == 135 {
        Some(UnsupportedPacket::Ipv6ExtensionHeader(next_header))
    } else {
        Some(UnsupportedPacket::Ipv6NextHeader(next_header))
    }
}

/// A header fault as a fault of its packet.
pub open spec fn header_fault(error: Ipv6HeaderError) -> PacketParseError {
    match error {
        Ipv6HeaderError::InvalidVersion => PacketParseError::Malformed("invalid IPv6 version"),
        _ => PacketParseError::Malformed("truncated IPv6 packet"),
    }
}

/// What the IPv6 packet at the front of `raw` reads as.
pub open spec fn ipv6_packet(raw: Seq<u8>) -> Result<Ipv6PacketView, PacketParseError> {
    match ipv6_header_with_payload(raw) {
        Err(error) => Err(header_fault(error)),
        Ok(header) => {
            let length = IPV6_HEADER_LENGTH + header.payload_length;
            let protocol = protocol_of(header.next_header);
            let segment = raw.subrange(IPV6_HEADER_LENGTH as int, length);
            if let Some(unsupported) = unsupported_next_header(header.next_header) {
                Err(PacketParseError::Unsupported(unsupported))
            } else if let Some(fault) = segment_fault(protocol, segment) {
                Err(PacketParseError::Malformed(fault))
            } else {
                Ok(
                    Ipv6PacketView {
                        raw: raw.take(length),
                        header,
                        transport: transport_fields(protocol, segment).unwrap(),
                    },
                )
            }
        },
    }
}

/// A packet reads the same with and without the bytes that follow it.
pub proof fn lemma_ipv6_packet_is_self_contained(raw: Seq<u8>)
    requires
        ipv6_packet(raw) is Ok,
    ensures
        ipv6_packet(raw.take(IPV6_HEADER_LENGTH + ipv6_packet(raw)->Ok_0.header.payload_length))
            == ipv6_packet(raw),
{
    let length: int = IPV6_HEADER_LENGTH + ipv6_packet(raw)->Ok_0.header.payload_length;
    let packet: Seq<u8> = raw.take(length);
    assert(packet.subrange(8, 24) =~= raw.subrange(8, 24));
    assert(packet.subrange(24, 40) =~= raw.subrange(24, 40));
    assert(packet.subrange(IPV6_HEADER_LENGTH as int, length) =~= raw.subrange(
        IPV6_HEADER_LENGTH as int,
        length,
    ));
    assert(packet.take(length) =~= packet);
}

impl<'a> View for Ipv6Packet<'a> {
    type V = Ipv6PacketView;

    closed spec fn view(&self) -> Ipv6PacketView {
        Ipv6PacketView {
            raw: self.raw@,
            header: self.ipv6_header_data@,
            transport: self.transport_header_data@,
        }
    }
}

/// The packets that there are: the bytes are one whole packet, and the fields
/// are what they hold.
pub open spec fn is_ipv6_packet(view: Ipv6PacketView) -> bool {
    ipv6_packet(view.raw) == Ok::<Ipv6PacketView, PacketParseError>(view)
}

impl<'a> Ipv6Packet<'a> {
    /// Reads the packet at the front of `raw`, which the packet then borrows;
    /// once it is released, `raw` is as it was.
    pub fn parse(raw: &'a mut [u8]) -> (result: Result<Self, PacketParseError>)
        ensures
            match result {
                Ok(packet) => {
                    &&& ipv6_packet(old(raw)@) == Ok::<Ipv6PacketView, PacketParseError>(packet@)
                    &&& is_ipv6_packet(packet@)
                    &&& has_resolved(packet) ==> final(raw)@ == old(raw)@
                },
                Err(error) => {
                    &&& ipv6_packet(old(raw)@) == Err::<Ipv6PacketView, PacketParseError>(error)
                    &&& final(raw)@ == old(raw)@
                },
            },
    {
        let ghost whole: Seq<u8> = raw@;
        let ipv6_header_data: Ipv6HeaderData = match Ipv6HeaderData::parse(raw) {
            Ok(data) => data,
            Err(error) => return Err(PacketParseError::from(error)),
        };
        let total_length: usize = ipv6_header_data.total_length();
        let next_header: u8 = ipv6_header_data.next_header();
        match next_header {
            6 | 17 => (),
            44 => return Err(
                PacketParseError::Unsupported(UnsupportedPacket::Ipv6FragmentHeader),
            ),
            0 | 43 | 50 | 51 | 60 | 135 => return Err(
                PacketParseError::Unsupported(UnsupportedPacket::Ipv6ExtensionHeader(next_header)),
            ),
            _ => return Err(
                PacketParseError::Unsupported(UnsupportedPacket::Ipv6NextHeader(next_header)),
            ),
        }
        let protocol: Protocol = protocol_from_number(next_header);
        let segment: &[u8] = &raw[IPV6_HEADER_LENGTH..total_length];
        if let Some(fault) = check_segment(protocol, segment) {
            return Err(PacketParseError::Malformed(fault));
        }
        let transport_header_data: TransportHeaderData = match TransportHeaderData::parse(
            protocol,
            segment,
        ) {
            Some(data) => data,
            None => return Err(PacketParseError::Malformed("unsupported transport header")),
        };
        let (front, rest) = raw.split_at_mut(total_length);
        assert(front@ + rest@ =~= whole);
        let packet = Ipv6Packet { raw: front, ipv6_header_data, transport_header_data };
        proof {
            lemma_ipv6_packet_is_self_contained(whole);
            assert(packet@.raw =~= whole.take(total_length as int));
            assert(has_resolved(rest));
            assert(has_resolved(packet) ==> has_resolved(packet.raw));
        }
        Ok(packet)
    }

    pub fn raw(&self) -> (raw: &[u8])
        ensures
            raw@ == self@.raw,
    {
        self.raw
    }

    pub fn length(&self) -> (length: usize)
        ensures
            length == self@.raw.len(),
    {
        self.raw.len()
    }

    pub fn ipv6_header_data(&self) -> (data: &Ipv6HeaderData)
        ensures
            data@ == self@.header,
    {
        &self.ipv6_header_data
    }

    pub fn ipv6_header(&self) -> (header: Ipv6Header<'_>)
        requires
            is_ipv6_packet(self@),
        ensures
            header.bytes() == self@.raw.take(IPV6_HEADER_LENGTH as int),
            header.fields() == self@.header,
            header.faithful(),
    {
        let header: Ipv6Header<'_> = self.ipv6_header_data.bind(
            &self.raw[0..IPV6_HEADER_LENGTH],
        );
        assert(header.bytes().subrange(8, 24) =~= self@.raw.subrange(8, 24));
        assert(header.bytes().subrange(24, 40) =~= self@.raw.subrange(24, 40));
        header
    }

    pub fn transport_header_data(&self) -> (data: &TransportHeaderData)
        ensures
            data@ == self@.transport,
    {
        &self.transport_header_data
    }

    pub fn transport_header(&self) -> (header: TransportHeader<'_>)
        requires
            is_ipv6_packet(self@),
        ensures
            header.bytes() == self@.raw.subrange(
                IPV6_HEADER_LENGTH as int,
                IPV6_HEADER_LENGTH + self@.transport.header_length,
            ),
            header.fields() == self@.transport,
            header.faithful(),
    {
        let end: usize = IPV6_HEADER_LENGTH + self.transport_header_data.header_length() as usize;
        self.transport_header_data.bind(&self.raw[IPV6_HEADER_LENGTH..end])
    }

    /// The bytes after the transport header; every packet has them, though they
    /// may be empty.
    pub fn payload(&self) -> (payload: Option<&[u8]>)
        requires
            is_ipv6_packet(self@),
        ensures
            payload is Some,
            payload.unwrap()@ == self@.raw.skip(
                IPV6_HEADER_LENGTH + self@.transport.header_length,
            ),
    {
        let start: usize = IPV6_HEADER_LENGTH + self.transport_header_data.header_length() as usize;
        Some(&self.raw[start..self.raw.len()])
    }
}

impl From<Ipv6HeaderError> for PacketParseError {
    fn from(error: Ipv6HeaderError) -> (fault: Self) {
        match error {
            Ipv6HeaderError::TruncatedHeader | Ipv6HeaderError::TruncatedPayload => {
                PacketParseError::Malformed("truncated IPv6 packet")
            },
            Ipv6HeaderError::InvalidVersion => PacketParseError::Malformed("invalid IPv6 version"),
        }
    }
}

impl vstd::std_specs::convert::FromSpecImpl<Ipv6HeaderError> for PacketParseError {
    open spec fn obeys_from_spec() -> bool {
        true
    }

    open spec fn from_spec(error: Ipv6HeaderError) -> PacketParseError {
        header_fault(error)
    }
}

/// Law: every complete packet of version six that carries TCP or UDP in a segment
/// that fits is read, and reads as its own bytes: the addresses, the ports and the
/// length of the transport header are those at their places.
pub proof fn law_wellformed_packets_are_read(raw: Seq<u8>)
    requires
        raw.len() >= 40,
        raw[0] / 16 == 6,
        raw.len() >= 40 + raw[4] * 256 + raw[5],
        ({
            ||| {
                &&& raw[6] == 6
                &&& 20 <= (raw[52] / 16) * 4 <= raw[4] * 256 + raw[5]
            }
            ||| {
                &&& raw[6] == 17
                &&& 8 <= raw[4] * 256 + raw[5]
                &&& raw[44] == raw[4]
                &&& raw[45] == raw[5]
            }
        }),
    ensures
        ipv6_packet(raw) matches Ok(packet) && {
            &&& packet.raw == raw.take(40 + raw[4] * 256 + raw[5])
            &&& packet.header.payload_length == raw[4] * 256 + raw[5]
            &&& packet.header.next_header == raw[6]
            &&& packet.header.source == raw.subrange(8, 24)
            &&& packet.header.destination == raw.subrange(24, 40)
            &&& packet.transport.protocol is Tcp <==> raw[6] == 6
            &&& packet.transport.protocol is Udp <==> raw[6] == 17
            &&& packet.transport.source_port == raw[40] * 256 + raw[41]
            &&& packet.transport.destination_port == raw[42] * 256 + raw[43]
            &&& packet.transport.header_length == if raw[6] == 6 {
                (raw[52] / 16) * 4
            } else {
                8
            }
        },
{
    let segment: Seq<u8> = raw.subrange(40, 40 + raw[4] * 256 + raw[5]);
    assert(segment.len() == raw[4] * 256 + raw[5]);
    if raw[6] == 6 {
        assert(segment[12] == raw[52]);
    }
}

/// Law: what is read is well-formed; nothing else is taken for a packet.
pub proof fn law_only_wellformed_packets_are_read(raw: Seq<u8>)
    ensures
        ipv6_packet(raw) is Ok ==> {
            &&& raw.len() >= 40
            &&& raw[0] / 16 == 6
            &&& raw.len() >= 40 + raw[4] * 256 + raw[5]
            &&& raw[6] == 6 || raw[6] == 17
            &&& raw[6] == 6 ==> 20 <= raw[4] * 256 + raw[5] && 20 <= (raw[52] / 16) * 4 <= raw[4]
                * 256 + raw[5]
            &&& raw[6] == 17 ==> 8 <= raw[4] * 256 + raw[5] && raw[44] == raw[4] && raw[45]
                == raw[5]
        },
{
}

/// Law: a complete packet of version six with any other next header is refused
/// as unsupported, by the kind of that header, whatever its payload holds.
pub proof fn law_other_next_headers_are_unsupported(raw: Seq<u8>)
    requires
        raw.len() >= 40,
        raw[0] / 16 == 6,
        raw.len() >= 40 + raw[4] * 256 + raw[5],
        raw[6] != 6,
        raw[6] != 17,
    ensures
        ipv6_packet(raw) matches Err(PacketParseError::Unsupported(reason)) && {
            &&& reason is Ipv6FragmentHeader <==> raw[6] == 44
            &&& reason is Ipv6ExtensionHeader <==> seq![0u8, 43, 50, 51, 60, 135].contains(raw[6])
            &&& reason matches UnsupportedPacket::Ipv6ExtensionHeader(named) ==> named == raw[6]
            &&& reason matches UnsupportedPacket::Ipv6NextHeader(named) ==> named == raw[6]
            &&& !(reason is Ipv4Fragment)
        },
{
    let extensions: Seq<u8> = seq![0u8, 43, 50, 51, 60, 135];
    assert(extensions[0] == 0 && extensions[1] == 43 && extensions[2] == 50 && extensions[3] == 51
        && extensions[4] == 60 && extensions[5] == 135);
}

/// Law: an incomplete packet is refused as truncated, and a complete header of
/// another version for its version.
pub proof fn law_broken_headers_are_malformed(raw: Seq<u8>)
    ensures
        raw.len() < 40 ==> ipv6_packet(raw) == Err::<Ipv6PacketView, PacketParseError>(
            PacketParseError::Malformed("truncated IPv6 packet"),
        ),
        raw.len() >= 40 && raw[0] / 16 != 6 ==> ipv6_packet(raw) == Err::<
            Ipv6PacketView,
            PacketParseError,
        >(PacketParseError::Malformed("invalid IPv6 version")),
        raw.len() >= 40 && raw[0] / 16 == 6 && raw.len() < 40 + raw[4] * 256 + raw[5]
            ==> ipv6_packet(raw) == Err::<Ipv6PacketView, PacketParseError>(
            PacketParseError::Malformed("truncated IPv6 packet"),
        ),
{
}

/// Law: a complete TCP or UDP packet whose segment does not fit is refused for
/// just that.
pub proof fn law_broken_segments_are_malformed(raw: Seq<u8>)
    requires
        raw.len() >= 40,
        raw[0] / 16 == 6,
        raw.len() >= 40 + raw[4] * 256 + raw[5],
    ensures
        ({
            let length: int = raw[4] * 256 + raw[5];
            &&& raw[6] == 6 && length < 20 ==> ipv6_packet(raw) == Err::<
                Ipv6PacketView,
                PacketParseError,
            >(PacketParseError::Malformed("truncated TCP header"))
            &&& raw[6] == 6 && length >= 20 && !(20 <= (raw[52] / 16) * 4 <= length)
                ==> ipv6_packet(raw) == Err::<Ipv6PacketView, PacketParseError>(
                PacketParseError::Malformed("invalid TCP header length"),
            )
            &&& raw[6] == 17 && length < 8 ==> ipv6_packet(raw) == Err::<
                Ipv6PacketView,
                PacketParseError,
            >(PacketParseError::Malformed("truncated UDP header"))
            &&& raw[6] == 17 && length >= 8 && raw[44] * 256 + raw[45] != length
                ==> ipv6_packet(raw) == Err::<Ipv6PacketView, PacketParseError>(
                PacketParseError::Malformed("invalid UDP length"),
            )
        }),
{
}

/// Law: only a header of another version is refused for its version; the other
/// header faults mean that bytes are missing.
pub proof fn law_header_faults_keep_their_reason(error: Ipv6HeaderError)
    ensures
        header_fault(error) == PacketParseError::Malformed(
            match error {
                Ipv6HeaderError::TruncatedHeader => "truncated IPv6 packet",
                Ipv6HeaderError::TruncatedPayload => "truncated IPv6 packet",
                Ipv6HeaderError::InvalidVersion => "invalid IPv6 version",
            },
        ),
{
}

} // verus!
