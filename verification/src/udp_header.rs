//! The UDP header.

use crate::bytes::{be16, read_u16_at};
use vstd::prelude::*;

verus! {

pub const UDP_HEADER_LENGTH: u8 = 8;

/// The ports of a UDP header.
#[derive(Clone, Copy)]
pub struct UdpHeaderData {
    source_port: u16,
    destination_port: u16,
}

impl UdpHeaderData {
    /// The port that the datagram comes from.
    pub closed spec fn spec_source_port(&self) -> int {
        self.source_port as int
    }

    /// The port that the datagram goes to.
    pub closed spec fn spec_destination_port(&self) -> int {
        self.destination_port as int
    }

    /// Reads the header at the front of `raw`.
    pub fn parse(raw: &[u8]) -> (data: Self)
        requires
            raw@.len() >= UDP_HEADER_LENGTH,
        ensures
            data.spec_source_port() == be16(raw@, 0),
            data.spec_destination_port() == be16(raw@, 2),
    {
        UdpHeaderData {
            source_port: read_u16_at(raw, 0),
            destination_port: read_u16_at(raw, 2),
        }
    }

    pub fn source_port(&self) -> (port: u16)
        ensures
            port == self.spec_source_port(),
    {
        self.source_port
    }

    pub fn destination_port(&self) -> (port: u16)
        ensures
            port == self.spec_destination_port(),
    {
        self.destination_port
    }

    /// The same header in the opposite direction.
    pub(crate) fn reversed(&self) -> (data: Self)
        ensures
            data.spec_source_port() == self.spec_destination_port(),
            data.spec_destination_port() == self.spec_source_port(),
    {
        UdpHeaderData { source_port: self.destination_port, destination_port: self.source_port }
    }
}

} // verus!
