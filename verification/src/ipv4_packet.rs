//! IPv4 packets.

use crate::bytes::be16;
use crate::ipv4_header::{
    ipv4_fields, Ipv4Fields, Ipv4Header, Ipv4HeaderData, IPV4_MIN_HEADER_LENGTH,
};
use crate::transport_header::{
    holds_transport_header, transport_fields, TransportFields, TransportHeaderData,
};
use vstd::prelude::*;

verus! {

/// Room for any IPv4 packet.
pub const MAX_PACKET_LENGTH: usize = 0x1_0000;

pub struct Ipv4Packet<'a> {
    raw: &'a mut [u8],
    ipv4_header_data: Ipv4HeaderData,
    transport_header_data: Option<TransportHeaderData>,
}

/// The mathematical reading of an [`Ipv4Packet`].
#[verifier::ext_equal]
pub struct Ipv4PacketView {
    pub raw: Seq<u8>,
    pub header: Ipv4Fields,
    pub transport: Option<TransportFields>,
}

/// The header of the packet at the front of `raw` marks it as a fragment: there
/// are more to come, or it is not the first.
pub open spec fn is_ipv4_fragment(raw: Seq<u8>) -> bool {
    be16(raw, 6) % 0x4000 != 0
}

/// The lengths of the packet at the front of `raw` agree, the packet is all
/// there, and it holds the fixed part of its transport header.
pub open spec fn is_ipv4_readable(raw: Seq<u8>) -> bool {
    let header = ipv4_fields(raw);
    &&& raw.len() >= IPV4_MIN_HEADER_LENGTH
    &&& IPV4_MIN_HEADER_LENGTH <= header.header_length <= header.total_length <= raw.len()
    &&& holds_transport_header(
        header.protocol,
        raw.subrange(header.header_length, header.total_length),
    )
}

/// What the IPv4 packet at the front of `raw` reads as.
pub open spec fn ipv4_packet(raw: Seq<u8>) -> Ipv4PacketView {
    let header = ipv4_fields(raw);
    Ipv4PacketView {
        raw: raw.take(header.total_length),
        header,
        transport: transport_fields(
            header.protocol,
            raw.subrange(header.header_length, header.total_length),
        ),
    }
}

/// The packets that there are: the bytes are one whole packet, and the fields
/// are what they hold.
pub open spec fn is_ipv4_packet(view: Ipv4PacketView) -> bool {
    is_ipv4_readable(view.raw) && ipv4_packet(view.raw) == view
}

/// A packet reads the same with and without the bytes that follow it.
pub proof fn lemma_ipv4_packet_is_self_contained(raw: Seq<u8>)
    requires
        is_ipv4_readable(raw),
    ensures
        is_ipv4_packet(ipv4_packet(raw)),
{
    let header: Ipv4Fields = ipv4_fields(raw);
    let packet: Seq<u8> = raw.take(header.total_length);
    assert(packet.subrange(header.header_length, header.total_length) =~= raw.subrange(
        header.header_length,
        header.total_length,
    ));
    assert(packet.take(header.total_length) =~= packet);
}

/// Whether the flags and the fragment offset mark a fragment.
pub(crate) fn fragment_bits(high: u8, low: u8) -> (fragment: bool)
    ensures
        fragment == ((high * 256 + low) % 0x4000 != 0),
{
    let more_fragments: bool = high & 0x20 != 0;
    let fragment_offset: bool = high & 0x1f != 0 || low != 0;
    assert((high & 0x20 != 0 || high & 0x1f != 0 || low != 0) == ((high * 256 + low) % 0x4000
        != 0)) by (bit_vector);
    more_fragments || fragment_offset
}

impl<'a> View for Ipv4Packet<'a> {
    type V = Ipv4PacketView;

    closed spec fn view(&self) -> Ipv4PacketView {
        Ipv4PacketView {
            raw: self.raw@,
            header: self.ipv4_header_data@,
            transport: match self.transport_header_data {
                Some(data) => Some(data@),
                None => None,
            },
        }
    }
}

impl<'a> Ipv4Packet<'a> {
    /// Reads the packet at the front of `raw`, which the packet then borrows;
    /// once it is released, `raw` is as it was.
    pub fn parse(raw: &'a mut [u8]) -> (packet: Self)
        requires
            is_ipv4_readable(old(raw)@),
        ensures
            packet@ == ipv4_packet(old(raw)@),
            is_ipv4_packet(packet@),
            has_resolved(packet) ==> final(raw)@ == old(raw)@,
    {
        let ghost whole: Seq<u8> = raw@;
        let ipv4_header_data: Ipv4HeaderData = Ipv4HeaderData::parse(raw);
        let header_length: usize = ipv4_header_data.header_length() as usize;
        let total_length: usize = ipv4_header_data.total_length() as usize;
        let transport_header_data: Option<TransportHeaderData> = TransportHeaderData::parse(
            ipv4_header_data.protocol(),
            &raw[header_length..total_length],
        );
        let (front, rest) = raw.split_at_mut(total_length);
        assert(front@ + rest@ =~= whole);
        let packet = Ipv4Packet { raw: front, ipv4_header_data, transport_header_data };
        proof {
            lemma_ipv4_packet_is_self_contained(whole);
            assert(packet@.raw =~= whole.take(total_length as int));
            assert(has_resolved(rest));
            assert(has_resolved(packet) ==> has_resolved(packet.raw));
        }
        packet
    }

    pub fn raw(&self) -> (raw: &[u8])
        ensures
            raw@ == self@.raw,
    {
        self.raw
    }

    pub fn length(&self) -> (length: usize)
        ensures
            length == self@.raw.len(),
    {
        self.raw.len()
    }

    pub fn ipv4_header(&self) -> (header: Ipv4Header<'_>)
        requires
            is_ipv4_packet(self@),
        ensures
            header.bytes() == self@.raw.take(self@.header.header_length),
            header.fields() == self@.header,
    {
        let end: usize = self.ipv4_header_data.header_length() as usize;
        self.ipv4_header_data.bind(&self.raw[0..end])
    }

    pub fn transport_header_data(&self) -> (data: Option<&TransportHeaderData>)
        ensures
            match data {
                Some(data) => self@.transport == Some(data@),
                None => self@.transport is None,
            },
    {
        match &self.transport_header_data {
            Some(data) => Some(data),
            None => None,
        }
    }

    pub fn headers_data(&self) -> (data: (&Ipv4HeaderData, Option<&TransportHeaderData>))
        ensures
            data.0@ == self@.header,
            match data.1 {
                Some(transport) => self@.transport == Some(transport@),
                None => self@.transport is None,
            },
    {
        (&self.ipv4_header_data, self.transport_header_data())
    }
}

/// Law: a packet that is all there has exactly the bytes that it announces, the
/// addresses of its header, and the ports at the front of its segment.
pub proof fn law_packet_is_its_own_bytes(raw: Seq<u8>)
    requires
        20 <= (raw[0] % 16) * 4 <= raw[2] * 256 + raw[3] <= raw.len(),
    ensures
        ({
            let packet: Ipv4PacketView = ipv4_packet(raw);
            let start: int = (raw[0] % 16) * 4;
            &&& packet.raw == raw.take(raw[2] * 256 + raw[3])
            &&& packet.header.header_length == start
            &&& packet.header.total_length == packet.raw.len()
            &&& packet.header.source == raw[12] * 0x100_0000 + raw[13] * 0x1_0000 + raw[14] * 0x100
                + raw[15]
            &&& packet.header.destination == raw[16] * 0x100_0000 + raw[17] * 0x1_0000 + raw[18]
                * 0x100 + raw[19]
            &&& packet.header.protocol is Tcp <==> raw[9] == 6
            &&& packet.header.protocol is Udp <==> raw[9] == 17
            &&& packet.transport is Some <==> raw[9] == 6 || raw[9] == 17
            &&& packet.transport matches Some(transport) ==> start + 8 <= packet.raw.len() ==> {
                &&& transport.protocol == packet.header.protocol
                &&& transport.source_port == raw[start] * 256 + raw[start + 1]
                &&& transport.destination_port == raw[start + 2] * 256 + raw[start + 3]
                &&& raw[9] == 17 ==> transport.header_length == 8
                &&& raw[9] == 6 && start + 20 <= packet.raw.len() ==> transport.header_length == (
                raw[start + 12] / 16) * 4
            }
        }),
{
}

/// Law: a packet can be read exactly when its lengths agree, it is all there, and
/// the fixed part of its transport header fits.
pub proof fn law_readable_packets(raw: Seq<u8>)
    ensures
        ({
            let start: int = (raw[0] % 16) * 4;
            let length: int = raw[2] * 256 + raw[3];
            is_ipv4_readable(raw) <==> {
                &&& 20 <= start <= length <= raw.len()
                &&& raw[9] == 6 ==> length - start >= 20
                &&& raw[9] == 17 ==> length - start >= 8
            }
        }),
{
}

/// Law: a packet is a fragment exactly when more fragments follow it or it does
/// not start at offset zero; the other two flags do not matter.
pub proof fn law_fragments(raw: Seq<u8>)
    ensures
        is_ipv4_fragment(raw) <==> (raw[6] / 32) % 2 == 1 || raw[6] % 32 != 0 || raw[7] != 0,
{
}

} // verus!
