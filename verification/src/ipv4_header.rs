//! The IPv4 header.

use crate::bytes::{be16, be32, read_u16_at, read_u32_at};
use crate::ipv6_header::{ip_version, version_of};
use vstd::prelude::*;

verus! {

/// The length of an IPv4 header without options.
pub const IPV4_MIN_HEADER_LENGTH: u8 = 20;

/// The upper layer of an IP packet.
#[derive(Clone, Copy, Debug, PartialEq, Eq, Hash, Structural)]
pub enum Protocol {
    Tcp,
    Udp,
    Other,
}

/// The protocol that an IP header announces by this number.
pub open spec fn protocol_of(number: u8) -> Protocol {
    if number == 6 {
        Protocol::Tcp
    } else if number == 17 {
        Protocol::Udp
    } else {
        Protocol::Other
    }
}

/// The protocol that an IP header announces by this number.
pub fn protocol_from_number(number: u8) -> (protocol: Protocol)
    ensures
        protocol == protocol_of(number),
{
    match number {
        6 => Protocol::Tcp,
        17 => Protocol::Udp,
        _ => Protocol::Other,
    }
}

/// A header's bytes together with the fields read from them.
pub struct Ipv4Header<'a> {
    raw: &'a [u8],
    data: &'a Ipv4HeaderData,
}

/// The fields of a header that the relay works with.
#[derive(Clone, Copy)]
pub struct Ipv4HeaderData {
    header_length: u8,
    total_length: u16,
    protocol: Protocol,
    source: u32,
    destination: u32,
}

/// The mathematical reading of an [`Ipv4HeaderData`].
pub struct Ipv4Fields {
    pub header_length: int,
    pub total_length: int,
    pub protocol: Protocol,
    pub source: int,
    pub destination: int,
}

/// The length of the header at the front of `raw`, which counts words of four
/// bytes.
pub open spec fn ipv4_header_length(raw: Seq<u8>) -> int {
    (raw[0] as int % 16) * 4
}

/// The fields that the first twenty bytes of `raw` hold.
pub open spec fn ipv4_fields(raw: Seq<u8>) -> Ipv4Fields {
    Ipv4Fields {
        header_length: ipv4_header_length(raw),
        total_length: be16(raw, 2),
        protocol: protocol_of(raw[9]),
        source: be32(raw, 12),
        destination: be32(raw, 16),
    }
}

/// The header length that the first byte of a packet announces.
pub(crate) fn header_length_of(first: u8) -> (length: u8)
    ensures
        length == (first as int % 16) * 4,
        length <= 60,
{
    assert(first & 15 == first % 16) by (bit_vector);
    (first & 15) * 4
}

/// The IP version and the total length of the packet at the front of `raw`;
/// nothing can be said before four bytes are there.
pub fn peek_version_length(raw: &[u8]) -> (result: Option<(u8, u16)>)
    ensures
        match result {
            Some((version, length)) => raw@.len() >= 4 && version == ip_version(raw@) && length
                == be16(raw@, 2),
            None => raw@.len() < 4,
        },
{
    if raw.len() < 4 {
        return None;
    }
    Some((version_of(raw[0]), read_u16_at(raw, 2)))
}

impl View for Ipv4HeaderData {
    type V = Ipv4Fields;

    closed spec fn view(&self) -> Ipv4Fields {
        Ipv4Fields {
            header_length: self.header_length as int,
            total_length: self.total_length as int,
            protocol: self.protocol,
            source: self.source as int,
            destination: self.destination as int,
        }
    }
}

impl Ipv4HeaderData {
    /// Reads the header at the front of `raw`.
    pub fn parse(raw: &[u8]) -> (data: Self)
        requires
            raw@.len() >= IPV4_MIN_HEADER_LENGTH,
        ensures
            data@ == ipv4_fields(raw@),
    {
        Ipv4HeaderData {
            header_length: header_length_of(raw[0]),
            total_length: read_u16_at(raw, 2),
            protocol: protocol_from_number(raw[9]),
            source: read_u32_at(raw, 12),
            destination: read_u32_at(raw, 16),
        }
    }

    /// Joins these fields with header bytes.
    pub fn bind<'c, 'a: 'c, 'b: 'c>(&'a self, raw: &'b [u8]) -> (header: Ipv4Header<'c>)
        ensures
            header.bytes() == raw@,
            header.fields() == self@,
    {
        Ipv4Header { raw, data: self }
    }

    pub fn header_length(&self) -> (length: u8)
        ensures
            length == self@.header_length,
    {
        self.header_length
    }

    pub fn total_length(&self) -> (length: u16)
        ensures
            length == self@.total_length,
    {
        self.total_length
    }

    pub fn protocol(&self) -> (protocol: Protocol)
        ensures
            protocol == self@.protocol,
    {
        self.protocol
    }

    pub fn source(&self) -> (source: u32)
        ensures
            source == self@.source,
    {
        self.source
    }

    pub fn destination(&self) -> (destination: u32)
        ensures
            destination == self@.destination,
    {
        self.destination
    }
}

impl<'a> Ipv4Header<'a> {
    /// The bytes that this header is bound to.
    pub closed spec fn bytes(&self) -> Seq<u8> {
        self.raw@
    }

    /// The fields that this header carries.
    pub closed spec fn fields(&self) -> Ipv4Fields {
        self.data@
    }

    pub fn raw(&self) -> (raw: &[u8])
        ensures
            raw@ == self.bytes(),
    {
        self.raw
    }

    pub fn header_length(&self) -> (length: u8)
        ensures
            length == self.fields().header_length,
    {
        self.data.header_length()
    }

    pub fn total_length(&self) -> (length: u16)
        ensures
            length == self.fields().total_length,
    {
        self.data.total_length()
    }

    pub fn protocol(&self) -> (protocol: Protocol)
        ensures
            protocol == self.fields().protocol,
    {
        self.data.protocol()
    }

    pub fn source(&self) -> (source: u32)
        ensures
            source == self.fields().source,
    {
        self.data.source()
    }

    pub fn destination(&self) -> (destination: u32)
        ensures
            destination == self.fields().destination,
    {
        self.data.destination()
    }
}

/// Law: every field of a header is the bytes at its place.
pub proof fn law_header_fields_lie_at_their_places(raw: Seq<u8>)
    ensures
        ipv4_fields(raw).header_length == (raw[0] % 16) * 4,
        ipv4_fields(raw).total_length == raw[2] * 256 + raw[3],
        ipv4_fields(raw).source == raw[12] * 0x100_0000 + raw[13] * 0x1_0000 + raw[14] * 0x100
            + raw[15],
        ipv4_fields(raw).destination == raw[16] * 0x100_0000 + raw[17] * 0x1_0000 + raw[18] * 0x100
            + raw[19],
        ipv4_fields(raw).protocol is Tcp <==> raw[9] == 6,
        ipv4_fields(raw).protocol is Udp <==> raw[9] == 17,
        ipv4_header_length(raw) == (raw[0] % 16) * 4,
{
}

/// Law: six is TCP, seventeen is UDP, and no other number is either.
pub proof fn law_numbers_of_protocols(number: u8)
    ensures
        protocol_of(number) is Tcp <==> number == 6,
        protocol_of(number) is Udp <==> number == 17,
        protocol_of(number) is Other <==> number != 6 && number != 17,
{
}

} // verus!
