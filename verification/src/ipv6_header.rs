//! The fixed 40-byte IPv6 header.

use crate::bytes::{be16, read_16_bytes, read_u16_at};
use vstd::prelude::*;

verus! {

pub const IPV6_HEADER_LENGTH: usize = 40;

#[derive(Clone, Copy, Debug, PartialEq, Eq)]
pub enum Ipv6HeaderError {
    TruncatedHeader,
    InvalidVersion,
    TruncatedPayload,
}

/// A header's bytes together with the fields read from them.
pub struct Ipv6Header<'a> {
    raw: &'a [u8],
    data: &'a Ipv6HeaderData,
}

/// The fields of a header that the relay works with.
#[derive(Clone, Copy)]
pub struct Ipv6HeaderData {
    payload_length: u16,
    next_header: u8,
    source: [u8; 16],
    destination: [u8; 16],
}

/// The mathematical reading of an [`Ipv6HeaderData`].
#[verifier::ext_equal]
pub struct Ipv6Fields {
    pub payload_length: int,
    pub next_header: u8,
    pub source: Seq<u8>,
    pub destination: Seq<u8>,
}

/// The IP version that a packet's first byte announces.
pub open spec fn ip_version(raw: Seq<u8>) -> int {
    raw[0] as int / 16
}

/// The fields that the first forty bytes of `raw` hold.
pub open spec fn ipv6_fields(raw: Seq<u8>) -> Ipv6Fields {
    Ipv6Fields {
        payload_length: be16(raw, 4),
        next_header: raw[6],
        source: raw.subrange(8, 24),
        destination: raw.subrange(24, 40),
    }
}

/// What the fixed header at the front of `raw` reads as, whether or not its
/// payload is there.
pub open spec fn ipv6_header_only(raw: Seq<u8>) -> Result<Ipv6Fields, Ipv6HeaderError> {
    if raw.len() < IPV6_HEADER_LENGTH {
        Err(Ipv6HeaderError::TruncatedHeader)
    } else if ip_version(raw) != 6 {
        Err(Ipv6HeaderError::InvalidVersion)
    } else {
        Ok(ipv6_fields(raw))
    }
}

/// What the header at the front of `raw` reads as, given that its payload has
/// to be there too.
pub open spec fn ipv6_header_with_payload(raw: Seq<u8>) -> Result<Ipv6Fields, Ipv6HeaderError> {
    match ipv6_header_only(raw) {
        Ok(fields) if raw.len() < IPV6_HEADER_LENGTH + fields.payload_length => Err(
            Ipv6HeaderError::TruncatedPayload,
        ),
        other => other,
    }
}

/// Splits the first byte of a packet into its two halves.
pub(crate) fn version_of(first: u8) -> (version: u8)
    ensures
        version == first / 16,
{
    assert(first >> 4 == first / 16) by (bit_vector);
    first >> 4
}

impl View for Ipv6HeaderData {
    type V = Ipv6Fields;

    closed spec fn view(&self) -> Ipv6Fields {
        Ipv6Fields {
            payload_length: self.payload_length as int,
            next_header: self.next_header,
            source: self.source@,
            destination: self.destination@,
        }
    }
}

impl Ipv6HeaderData {
    /// Reads the header at the front of `raw`; the payload that it announces has
    /// to be there too.
    pub fn parse(raw: &[u8]) -> (result: Result<Self, Ipv6HeaderError>)
        ensures
            match result {
                Ok(data) => ipv6_header_with_payload(raw@) == Ok::<Ipv6Fields, Ipv6HeaderError>(
                    data@,
                ),
                Err(error) => ipv6_header_with_payload(raw@) == Err::<Ipv6Fields, Ipv6HeaderError>(
                    error,
                ),
            },
    {
        match Self::parse_header_only(raw) {
            Ok(data) => {
                if raw.len() < IPV6_HEADER_LENGTH + data.payload_length as usize {
                    return Err(Ipv6HeaderError::TruncatedPayload);
                }
                Ok(data)
            },
            Err(error) => Err(error),
        }
    }

    /// Reads the fixed header without requiring the payload to be present.
    ///
    /// A packetizer swaps the endpoints of a reference header before it knows how
    /// many payload bytes the host will return, so [`Self::parse`] would reject
    /// that buffer.
    pub fn parse_header_only(raw: &[u8]) -> (result: Result<Self, Ipv6HeaderError>)
        ensures
            match result {
                Ok(data) => ipv6_header_only(raw@) == Ok::<Ipv6Fields, Ipv6HeaderError>(data@),
                Err(error) => ipv6_header_only(raw@) == Err::<Ipv6Fields, Ipv6HeaderError>(error),
            },
    {
        if raw.len() < IPV6_HEADER_LENGTH {
            return Err(Ipv6HeaderError::TruncatedHeader);
        }
        if version_of(raw[0]) != 6 {
            return Err(Ipv6HeaderError::InvalidVersion);
        }
        let data: Ipv6HeaderData = Ipv6HeaderData {
            payload_length: read_u16_at(raw, 4),
            next_header: raw[6],
            source: read_16_bytes(raw, 8),
            destination: read_16_bytes(raw, 24),
        };
        assert(data@ =~= ipv6_fields(raw@));
        Ok(data)
    }

    /// Joins these fields with header bytes.
    pub fn bind<'c, 'a: 'c, 'b: 'c>(&'a self, raw: &'b [u8]) -> (header: Ipv6Header<'c>)
        ensures
            header.bytes() == raw@,
            header.fields() == self@,
    {
        Ipv6Header { raw, data: self }
    }

    pub fn payload_length(&self) -> (length: u16)
        ensures
            length == self@.payload_length,
    {
        self.payload_length
    }

    /// The length of the whole packet: the fixed header and its payload.
    pub fn total_length(&self) -> (length: usize)
        ensures
            length == IPV6_HEADER_LENGTH + self@.payload_length,
    {
        IPV6_HEADER_LENGTH + self.payload_length as usize
    }

    pub fn next_header(&self) -> (next_header: u8)
        ensures
            next_header == self@.next_header,
    {
        self.next_header
    }

    pub fn source(&self) -> (source: [u8; 16])
        ensures
            source@ == self@.source,
    {
        self.source
    }

    pub fn destination(&self) -> (destination: [u8; 16])
        ensures
            destination@ == self@.destination,
    {
        self.destination
    }
}

impl<'a> Ipv6Header<'a> {
    /// The bytes that this header is bound to.
    pub closed spec fn bytes(&self) -> Seq<u8> {
        self.raw@
    }

    /// The fields that this header carries.
    pub closed spec fn fields(&self) -> Ipv6Fields {
        self.data@
    }

    /// The bytes are one fixed header, and the fields are what they hold.
    pub open spec fn faithful(&self) -> bool {
        &&& self.bytes().len() == IPV6_HEADER_LENGTH
        &&& ip_version(self.bytes()) == 6
        &&& self.fields() == ipv6_fields(self.bytes())
    }

    pub fn raw(&self) -> (raw: &[u8])
        ensures
            raw@ == self.bytes(),
    {
        self.raw
    }

    pub fn data(&self) -> (data: &Ipv6HeaderData)
        ensures
            data@ == self.fields(),
    {
        self.data
    }

    pub fn payload_length(&self) -> (length: u16)
        ensures
            length == self.fields().payload_length,
    {
        self.data.payload_length()
    }

    pub fn next_header(&self) -> (next_header: u8)
        ensures
            next_header == self.fields().next_header,
    {
        self.data.next_header()
    }

    pub fn source(&self) -> (source: [u8; 16])
        ensures
            source@ == self.fields().source,
    {
        self.data.source()
    }

    pub fn destination(&self) -> (destination: [u8; 16])
        ensures
            destination@ == self.fields().destination,
    {
        self.data.destination()
    }
}

/// Law: forty bytes whose first half byte is six are a header; every field of it
/// is the bytes at its place, in every packet.
pub proof fn law_header_fields_lie_at_their_places(raw: Seq<u8>)
    requires
        raw.len() >= 40,
        raw[0] / 16 == 6,
    ensures
        ipv6_header_only(raw) matches Ok(fields) && {
            &&& fields.payload_length == raw[4] * 256 + raw[5]
            &&& fields.next_header == raw[6]
            &&& fields.source == raw.subrange(8, 24)
            &&& fields.destination == raw.subrange(24, 40)
        },
        raw.len() >= 40 + raw[4] * 256 + raw[5] ==> ipv6_header_with_payload(raw)
            == ipv6_header_only(raw),
        raw.len() < 40 + raw[4] * 256 + raw[5] ==> ipv6_header_with_payload(raw) == Err::<
            Ipv6Fields,
            Ipv6HeaderError,
        >(Ipv6HeaderError::TruncatedPayload),
{
}

/// Law: fewer than forty bytes are a truncated header, whatever they hold, and
/// forty bytes of another version are none.
pub proof fn law_what_is_no_header_is_refused(raw: Seq<u8>)
    ensures
        raw.len() < 40 ==> {
            &&& ipv6_header_only(raw) == Err::<Ipv6Fields, Ipv6HeaderError>(
                Ipv6HeaderError::TruncatedHeader,
            )
            &&& ipv6_header_with_payload(raw) == ipv6_header_only(raw)
        },
        raw.len() >= 40 && raw[0] / 16 != 6 ==> {
            &&& ipv6_header_only(raw) == Err::<Ipv6Fields, Ipv6HeaderError>(
                Ipv6HeaderError::InvalidVersion,
            )
            &&& ipv6_header_with_payload(raw) == ipv6_header_only(raw)
        },
{
}

/// Law: the version is the high half of the first byte.
pub proof fn law_version_is_the_high_half_byte(raw: Seq<u8>)
    ensures
        raw[0] == ip_version(raw) * 16 + raw[0] % 16,
        0 <= ip_version(raw) < 16,
{
}

} // verus!
