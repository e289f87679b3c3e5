//! The TCP header.

use crate::bytes::{be16, read_u16_at};
use vstd::prelude::*;

verus! {

/// The length of a TCP header without options.
pub const TCP_MIN_HEADER_LENGTH: u8 = 20;

/// The fields of a TCP header that the relay works with.
#[derive(Clone, Copy)]
pub struct TcpHeaderData {
    source_port: u16,
    destination_port: u16,
    header_length: u8,
}

/// The length that the data offset of the header `raw` announces: the offset
/// counts words of four bytes.
pub open spec fn tcp_header_length(raw: Seq<u8>) -> int {
    (raw[12] as int / 16) * 4
}

/// The length that the data offset byte announces.
pub(crate) fn data_offset_length(data_offset: u8) -> (length: u8)
    ensures
        length == (data_offset as int / 16) * 4,
        length <= 60,
{
    assert(data_offset >> 4 == data_offset / 16) by (bit_vector);
    (data_offset >> 4) * 4
}

impl TcpHeaderData {
    /// The port that the segment comes from.
    pub closed spec fn spec_source_port(&self) -> int {
        self.source_port as int
    }

    /// The port that the segment goes to.
    pub closed spec fn spec_destination_port(&self) -> int {
        self.destination_port as int
    }

    /// The length of the header, options included.
    pub closed spec fn spec_header_length(&self) -> int {
        self.header_length as int
    }

    /// Reads the header at the front of `raw`.
    pub fn parse(raw: &[u8]) -> (data: Self)
        requires
            raw@.len() >= TCP_MIN_HEADER_LENGTH,
        ensures
            data.spec_source_port() == be16(raw@, 0),
            data.spec_destination_port() == be16(raw@, 2),
            data.spec_header_length() == tcp_header_length(raw@),
    {
        TcpHeaderData {
            source_port: read_u16_at(raw, 0),
            destination_port: read_u16_at(raw, 2),
            header_length: data_offset_length(raw[12]),
        }
    }

    pub fn source_port(&self) -> (port: u16)
        ensures
            port == self.spec_source_port(),
    {
        self.source_port
    }

    pub fn destination_port(&self) -> (port: u16)
        ensures
            port == self.spec_destination_port(),
    {
        self.destination_port
    }

    pub fn header_length(&self) -> (length: u8)
        ensures
            length == self.spec_header_length(),
    {
        self.header_length
    }

    /// The same header in the opposite direction.
    pub(crate) fn reversed(&self) -> (data: Self)
        ensures
            data.spec_source_port() == self.spec_destination_port(),
            data.spec_destination_port() == self.spec_source_port(),
            data.spec_header_length() == self.spec_header_length(),
    {
        TcpHeaderData {
            source_port: self.destination_port,
            destination_port: self.source_port,
            header_length: self.header_length,
        }
    }
}

} // verus!
