//! The transport headers that the relay understands: TCP and UDP.

use crate::bytes::{be16, put16, read_u16_at, write_u16_at};
use crate::ipv4_header::Protocol;
use crate::tcp_header::{
    data_offset_length, tcp_header_length, TcpHeaderData, TCP_MIN_HEADER_LENGTH,
};
use crate::udp_header::{UdpHeaderData, UDP_HEADER_LENGTH};
use vstd::prelude::*;

verus! {

/// A header's bytes together with the fields read from them.
pub struct TransportHeader<'a> {
    raw: &'a [u8],
    data: &'a TransportHeaderData,
}

/// The fields of a TCP or a UDP header.
#[derive(Clone, Copy)]
pub enum TransportHeaderData {
    Tcp(TcpHeaderData),
    Udp(UdpHeaderData),
}

/// The mathematical reading of a [`TransportHeaderData`].
pub struct TransportFields {
    pub protocol: Protocol,
    pub source_port: int,
    pub destination_port: int,
    pub header_length: int,
}

impl TransportFields {
    /// The same header in the opposite direction.
    pub open spec fn reversed(self) -> TransportFields {
        TransportFields {
            source_port: self.destination_port,
            destination_port: self.source_port,
            ..self
        }
    }
}

/// The fields of the header at the front of `raw`, for a protocol that has one.
pub open spec fn transport_fields(protocol: Protocol, raw: Seq<u8>) -> Option<TransportFields> {
    match protocol {
        Protocol::Tcp => Some(
            TransportFields {
                protocol,
                source_port: be16(raw, 0),
                destination_port: be16(raw, 2),
                header_length: tcp_header_length(raw),
            },
        ),
        Protocol::Udp => Some(
            TransportFields {
                protocol,
                source_port: be16(raw, 0),
                destination_port: be16(raw, 2),
                header_length: UDP_HEADER_LENGTH as int,
            },
        ),
        Protocol::Other => None,
    }
}

/// `raw` holds the fixed part of a header of this protocol.
pub open spec fn holds_transport_header(protocol: Protocol, raw: Seq<u8>) -> bool {
    match protocol {
        Protocol::Tcp => raw.len() >= TCP_MIN_HEADER_LENGTH,
        Protocol::Udp => raw.len() >= UDP_HEADER_LENGTH,
        Protocol::Other => true,
    }
}

/// What is wrong with the transport segment of an IP packet, if anything: the
/// header has to fit, and its lengths have to agree with the packet's.
pub open spec fn segment_fault(protocol: Protocol, segment: Seq<u8>) -> Option<&'static str> {
    match protocol {
        Protocol::Tcp => if segment.len() < TCP_MIN_HEADER_LENGTH {
            Some("truncated TCP header")
        } else if !(TCP_MIN_HEADER_LENGTH <= tcp_header_length(segment) <= segment.len()) {
            Some("invalid TCP header length")
        } else {
            None
        },
        Protocol::Udp => if segment.len() < UDP_HEADER_LENGTH {
            Some("truncated UDP header")
        } else if be16(segment, 4) != segment.len() {
            Some("invalid UDP length")
        } else {
            None
        },
        Protocol::Other => None,
    }
}

/// Looks for what is wrong with the transport segment of an IP packet.
pub fn check_segment(protocol: Protocol, segment: &[u8]) -> (fault: Option<&'static str>)
    ensures
        fault == segment_fault(protocol, segment@),
{
    match protocol {
        Protocol::Tcp => {
            if segment.len() < TCP_MIN_HEADER_LENGTH as usize {
                return Some("truncated TCP header");
            }
            let header_length: usize = data_offset_length(segment[12]) as usize;
            if header_length < TCP_MIN_HEADER_LENGTH as usize || header_length > segment.len() {
                return Some("invalid TCP header length");
            }
            None
        },
        Protocol::Udp => {
            if segment.len() < UDP_HEADER_LENGTH as usize {
                return Some("truncated UDP header");
            }
            if read_u16_at(segment, 4) as usize != segment.len() {
                return Some("invalid UDP length");
            }
            None
        },
        Protocol::Other => None,
    }
}

impl View for TransportHeaderData {
    type V = TransportFields;

    open spec fn view(&self) -> TransportFields {
        match *self {
            TransportHeaderData::Tcp(data) => TransportFields {
                protocol: Protocol::Tcp,
                source_port: data.spec_source_port(),
                destination_port: data.spec_destination_port(),
                header_length: data.spec_header_length(),
            },
            TransportHeaderData::Udp(data) => TransportFields {
                protocol: Protocol::Udp,
                source_port: data.spec_source_port(),
                destination_port: data.spec_destination_port(),
                header_length: UDP_HEADER_LENGTH as int,
            },
        }
    }
}

impl TransportHeaderData {
    /// Reads the header at the front of `raw`; there is none to read for a
    /// protocol other than TCP and UDP.
    pub fn parse(protocol: Protocol, raw: &[u8]) -> (result: Option<Self>)
        requires
            holds_transport_header(protocol, raw@),
        ensures
            match result {
                Some(data) => transport_fields(protocol, raw@) == Some(data@),
                None => transport_fields(protocol, raw@) is None,
            },
    {
        match protocol {
            Protocol::Tcp => Some(TransportHeaderData::Tcp(TcpHeaderData::parse(raw))),
            Protocol::Udp => Some(TransportHeaderData::Udp(UdpHeaderData::parse(raw))),
            Protocol::Other => None,
        }
    }

    /// Joins these fields with header bytes.
    pub fn bind<'c, 'a: 'c, 'b: 'c>(&'a self, raw: &'b [u8]) -> (header: TransportHeader<'c>)
        ensures
            header.bytes() == raw@,
            header.fields() == self@,
    {
        TransportHeader { raw, data: self }
    }

    pub fn source_port(&self) -> (port: u16)
        ensures
            port == self@.source_port,
    {
        match self {
            TransportHeaderData::Tcp(data) => data.source_port(),
            TransportHeaderData::Udp(data) => data.source_port(),
        }
    }

    pub fn destination_port(&self) -> (port: u16)
        ensures
            port == self@.destination_port,
    {
        match self {
            TransportHeaderData::Tcp(data) => data.destination_port(),
            TransportHeaderData::Udp(data) => data.destination_port(),
        }
    }

    pub fn header_length(&self) -> (length: u8)
        ensures
            length == self@.header_length,
    {
        match self {
            TransportHeaderData::Tcp(data) => data.header_length(),
            TransportHeaderData::Udp(_) => UDP_HEADER_LENGTH,
        }
    }

    /// Turns the header round: the ports change places, here and in `raw`.
    pub fn swap_source_and_destination(&mut self, raw: &mut [u8])
        requires
            old(raw)@.len() >= 4,
        ensures
            final(self)@ == old(self)@.reversed(),
            final(raw)@ == put16(
                put16(old(raw)@, 0, old(self)@.destination_port),
                2,
                old(self)@.source_port,
            ),
    {
        write_u16_at(raw, 0, self.destination_port());
        write_u16_at(raw, 2, self.source_port());
        let reversed: TransportHeaderData = match self {
            TransportHeaderData::Tcp(data) => TransportHeaderData::Tcp(data.reversed()),
            TransportHeaderData::Udp(data) => TransportHeaderData::Udp(data.reversed()),
        };
        *self = reversed;
    }

    /// Stores in `raw` the length of a payload that follows the header. Only UDP
    /// has a field for it, which counts the header too.
    pub fn set_payload_length(&self, raw: &mut [u8], payload_length: u16)
        requires
            self@.protocol is Udp ==> old(raw)@.len() >= UDP_HEADER_LENGTH,
            self@.protocol is Udp ==> UDP_HEADER_LENGTH + payload_length <= u16::MAX,
        ensures
            final(raw)@ == with_payload_length(
                self@.protocol,
                old(raw)@,
                payload_length as int,
            ),
    {
        match self {
            TransportHeaderData::Tcp(_) => (),
            TransportHeaderData::Udp(_) => {
                write_u16_at(raw, 4, UDP_HEADER_LENGTH as u16 + payload_length);
            },
        }
    }
}

/// The header `raw` once it announces a payload of this length.
pub open spec fn with_payload_length(protocol: Protocol, raw: Seq<u8>, length: int) -> Seq<u8> {
    match protocol {
        Protocol::Udp => put16(raw, 4, UDP_HEADER_LENGTH + length),
        _ => raw,
    }
}

impl<'a> TransportHeader<'a> {
    /// The bytes that this header is bound to.
    pub closed spec fn bytes(&self) -> Seq<u8> {
        self.raw@
    }

    /// The fields that this header carries.
    pub closed spec fn fields(&self) -> TransportFields {
        self.data@
    }

    /// The bytes are one whole header, and the fields are what they hold.
    pub open spec fn faithful(&self) -> bool {
        &&& holds_transport_header(self.fields().protocol, self.bytes())
        &&& transport_fields(self.fields().protocol, self.bytes()) == Some(self.fields())
        &&& self.bytes().len() == self.fields().header_length
    }

    pub fn raw(&self) -> (raw: &[u8])
        ensures
            raw@ == self.bytes(),
    {
        self.raw
    }

    /// A copy of the fields.
    pub fn data_clone(&self) -> (data: TransportHeaderData)
        ensures
            data@ == self.fields(),
    {
        *self.data
    }

    pub fn source_port(&self) -> (port: u16)
        ensures
            port == self.fields().source_port,
    {
        self.data.source_port()
    }

    pub fn destination_port(&self) -> (port: u16)
        ensures
            port == self.fields().destination_port,
    {
        self.data.destination_port()
    }

    pub fn header_length(&self) -> (length: u8)
        ensures
            length == self.fields().header_length,
    {
        self.data.header_length()
    }
}

/// Law: the ports lie in the first two words of a segment, and a TCP header is as
/// long as its data offset says in words of four bytes, a UDP header eight bytes.
pub proof fn law_transport_fields_lie_at_their_places(protocol: Protocol, raw: Seq<u8>)
    ensures
        transport_fields(protocol, raw) is None <==> protocol is Other,
        transport_fields(protocol, raw) matches Some(fields) ==> {
            &&& fields.protocol == protocol
            &&& fields.source_port == raw[0] * 256 + raw[1]
            &&& fields.destination_port == raw[2] * 256 + raw[3]
            &&& protocol is Tcp ==> fields.header_length == (raw[12] / 16) * 4
            &&& protocol is Udp ==> fields.header_length == 8
        },
{
}

/// Law: the fixed part of a header is twenty bytes for TCP and eight for UDP.
pub proof fn law_fixed_parts_of_headers(raw: Seq<u8>)
    ensures
        holds_transport_header(Protocol::Tcp, raw) <==> raw.len() >= 20,
        holds_transport_header(Protocol::Udp, raw) <==> raw.len() >= 8,
        holds_transport_header(Protocol::Other, raw),
{
}

/// Law: a TCP segment is in order exactly when its header fits it, and what is
/// wrong otherwise is told by where it fails to fit.
pub proof fn law_tcp_segments_are_judged_by_their_header(segment: Seq<u8>)
    ensures
        segment_fault(Protocol::Tcp, segment) is None <==> segment.len() >= 20 && 20 <= (segment[12]
            / 16) * 4 <= segment.len(),
        segment_fault(Protocol::Tcp, segment) == Some("truncated TCP header") <== segment.len()
            < 20,
        segment_fault(Protocol::Tcp, segment) == Some("invalid TCP header length")
            <== segment.len() >= 20 && !(20 <= (segment[12] / 16) * 4 <= segment.len()),
{
}

/// Law: a UDP segment is in order exactly when it announces its own length, and
/// what is wrong otherwise is told by whether it has room to; of other protocols
/// nothing is asked.
pub proof fn law_udp_segments_are_judged_by_their_length(segment: Seq<u8>)
    ensures
        segment_fault(Protocol::Udp, segment) is None <==> segment.len() >= 8 && segment[4] * 256
            + segment[5] == segment.len(),
        segment_fault(Protocol::Udp, segment) == Some("truncated UDP header") <== segment.len()
            < 8,
        segment_fault(Protocol::Udp, segment) == Some("invalid UDP length") <== segment.len() >= 8
            && segment[4] * 256 + segment[5] != segment.len(),
        segment_fault(Protocol::Other, segment) is None,
{
}

/// Law: turning a header round exchanges its ports and nothing else, so that
/// turning it round twice changes nothing.
pub proof fn law_turning_round_exchanges_the_ports(fields: TransportFields)
    ensures
        fields.reversed().source_port == fields.destination_port,
        fields.reversed().destination_port == fields.source_port,
        fields.reversed().protocol == fields.protocol,
        fields.reversed().header_length == fields.header_length,
        fields.reversed().reversed() == fields,
{
}

/// Law: a UDP header that announces a payload reads as announcing it and the
/// header itself, with every other byte as before; a TCP header has no such field.
pub proof fn law_payload_length_is_announced(raw: Seq<u8>, length: int, i: int)
    requires
        raw.len() >= 8,
        0 <= length <= 0xffff - 8,
        0 <= i < raw.len(),
    ensures
        ({
            let announced: Seq<u8> = with_payload_length(Protocol::Udp, raw, length);
            &&& announced.len() == raw.len()
            &&& announced[4] * 256 + announced[5] == 8 + length
            &&& i != 4 && i != 5 ==> announced[i] == raw[i]
        }),
        with_payload_length(Protocol::Tcp, raw, length) == raw,
{
}

} // verus!
