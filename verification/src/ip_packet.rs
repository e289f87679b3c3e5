//! Packets of either IP version, and where they end in a stream of bytes.

use crate::bytes::{be16, read_u16_at};
use crate::ipv4_header::{
    header_length_of, ipv4_fields, ipv4_header_length, protocol_from_number, Protocol,
    IPV4_MIN_HEADER_LENGTH,
};
use crate::ipv4_packet::{
    fragment_bits, ipv4_packet, is_ipv4_fragment, is_ipv4_packet, is_ipv4_readable,
    lemma_ipv4_packet_is_self_contained, Ipv4Packet, Ipv4PacketView,
};
use crate::ipv6_header::{ip_version, version_of, IPV6_HEADER_LENGTH};
use crate::ipv6_packet::{
    ipv6_packet, is_ipv6_packet, lemma_ipv6_packet_is_self_contained, Ipv6Packet, Ipv6PacketView,
};
use crate::transport_header::{check_segment, segment_fault};
use vstd::prelude::*;

verus! {

/// Room for any packet: the longest is an IPv6 header with the longest payload
/// that its length field can announce.
pub const MAX_IP_PACKET_LENGTH: usize = IPV6_HEADER_LENGTH + 0xffff;

/// Well-formed packets that the relay does not carry.
#[derive(Clone, Copy, Debug, PartialEq, Eq, Structural)]
pub enum UnsupportedPacket {
    Ipv4Fragment,
    Ipv6ExtensionHeader(u8),
    Ipv6FragmentHeader,
    Ipv6NextHeader(u8),
}

#[derive(Clone, Copy, Debug, PartialEq, Eq)]
pub enum PacketParseError {
    Malformed(&'static str),
    Unsupported(UnsupportedPacket),
}

pub enum IpPacket<'a> {
    Ipv4(Ipv4Packet<'a>),
    Ipv6(Ipv6Packet<'a>),
}

/// The mathematical reading of an [`IpPacket`].
#[verifier::ext_equal]
pub enum IpPacketView {
    Ipv4(Ipv4PacketView),
    Ipv6(Ipv6PacketView),
}

impl IpPacketView {
    /// The bytes of the packet.
    pub open spec fn raw(self) -> Seq<u8> {
        match self {
            IpPacketView::Ipv4(packet) => packet.raw,
            IpPacketView::Ipv6(packet) => packet.raw,
        }
    }

    /// The packets that there are: the bytes are one whole packet, and the
    /// fields are what they hold.
    pub open spec fn is_packet(self) -> bool {
        match self {
            IpPacketView::Ipv4(packet) => is_ipv4_packet(packet),
            IpPacketView::Ipv6(packet) => is_ipv6_packet(packet),
        }
    }
}

/// Why the IPv4 packet at the front of `raw` cannot be read or relayed, if it
/// cannot.
pub open spec fn ipv4_fault(raw: Seq<u8>) -> Option<PacketParseError> {
    let header = ipv4_fields(raw);
    if raw.len() < 4 {
        Some(PacketParseError::Malformed("truncated IPv4 packet"))
    } else if !(IPV4_MIN_HEADER_LENGTH <= header.header_length <= header.total_length
        <= raw.len()) {
        Some(PacketParseError::Malformed("invalid IPv4 packet length"))
    } else if is_ipv4_fragment(raw) {
        Some(PacketParseError::Unsupported(UnsupportedPacket::Ipv4Fragment))
    } else {
        match segment_fault(
            header.protocol,
            raw.subrange(header.header_length, header.total_length),
        ) {
            Some(fault) => Some(PacketParseError::Malformed(fault)),
            None => None,
        }
    }
}

/// What the packet at the front of `raw` reads as.
pub open spec fn ip_packet(raw: Seq<u8>) -> Result<IpPacketView, PacketParseError> {
    if raw.len() == 0 {
        Err(PacketParseError::Malformed("truncated IP packet"))
    } else if ip_version(raw) == 4 {
        match ipv4_fault(raw) {
            Some(error) => Err(error),
            None => Ok(IpPacketView::Ipv4(ipv4_packet(raw))),
        }
    } else if ip_version(raw) == 6 {
        match ipv6_packet(raw) {
            Ok(packet) => Ok(IpPacketView::Ipv6(packet)),
            Err(error) => Err(error),
        }
    } else {
        Err(PacketParseError::Malformed("unsupported IP version"))
    }
}

/// The length that the packet at the front of `raw` announces, as soon as the
/// bytes that announce it are there.
pub open spec fn announced_length(raw: Seq<u8>) -> Result<Option<int>, PacketParseError> {
    if raw.len() == 0 {
        Ok(None)
    } else if ip_version(raw) == 4 {
        if raw.len() < 4 {
            Ok(None)
        } else if !(IPV4_MIN_HEADER_LENGTH <= ipv4_header_length(raw) <= be16(raw, 2)) {
            Err(PacketParseError::Malformed("invalid IPv4 packet length"))
        } else {
            Ok(Some(be16(raw, 2)))
        }
    } else if ip_version(raw) == 6 {
        if raw.len() < 6 {
            Ok(None)
        } else {
            Ok(Some(IPV6_HEADER_LENGTH + be16(raw, 4)))
        }
    } else {
        Err(PacketParseError::Malformed("unsupported IP version"))
    }
}

/// The length of the packet at the front of `raw`, once all of it is there.
pub open spec fn front_length(raw: Seq<u8>) -> Result<Option<int>, PacketParseError> {
    match announced_length(raw) {
        Ok(Some(length)) if raw.len() < length => Ok(None),
        other => other,
    }
}

/// Law: only packets that stand for themselves are read: no IPv4 fragment, and
/// of IPv6 only TCP and UDP directly behind the fixed header, no fragment and no
/// extension header.
pub proof fn law_only_plain_packets_are_read(raw: Seq<u8>)
    ensures
        ip_packet(raw) matches Ok(IpPacketView::Ipv4(packet)) ==> !is_ipv4_fragment(raw),
        ip_packet(raw) matches Ok(IpPacketView::Ipv6(packet)) ==> {
            ||| packet.header.next_header == 6
            ||| packet.header.next_header == 17
        },
{
}

/// Law: a packet reads the same by itself and with any bytes behind it.
pub proof fn law_reading_stops_at_the_end(raw: Seq<u8>, more: Seq<u8>)
    ensures
        ip_packet(raw) matches Ok(packet) ==> {
            &&& ip_packet(packet.raw()) == ip_packet(raw)
            &&& ip_packet(raw + more) == ip_packet(raw)
            &&& packet.is_packet()
        },
{
    if let Ok(packet) = ip_packet(raw) {
        let length: int = packet.raw().len() as int;
        assert((raw + more).take(length) =~= raw.take(length));
        match packet {
            IpPacketView::Ipv4(packet) => {
                let header_length: int = packet.header.header_length;
                lemma_ipv4_packet_is_self_contained(raw);
                assert((raw + more).subrange(header_length, length) =~= raw.subrange(
                    header_length,
                    length,
                ));
                assert(packet.raw.subrange(header_length, length) =~= raw.subrange(
                    header_length,
                    length,
                ));
            },
            IpPacketView::Ipv6(packet) => {
                lemma_ipv6_packet_is_self_contained(raw);
                assert((raw + more).take(40) =~= raw.take(40));
                assert((raw + more).subrange(8, 24) =~= raw.subrange(8, 24));
                assert((raw + more).subrange(24, 40) =~= raw.subrange(24, 40));
                assert((raw + more).subrange(40, length) =~= raw.subrange(40, length));
            },
        }
    }
}

impl<'a> View for IpPacket<'a> {
    type V = IpPacketView;

    open spec fn view(&self) -> IpPacketView {
        match *self {
            IpPacket::Ipv4(packet) => IpPacketView::Ipv4(packet@),
            IpPacket::Ipv6(packet) => IpPacketView::Ipv6(packet@),
        }
    }
}

impl<'a> IpPacket<'a> {
    /// Reads the packet at the front of `raw`, which the packet then borrows;
    /// once it is released, `raw` is as it was.
    pub fn parse(raw: &'a mut [u8]) -> (result: Result<Self, PacketParseError>)
        ensures
            match result {
                Ok(packet) => {
                    &&& ip_packet(old(raw)@) == Ok::<IpPacketView, PacketParseError>(packet@)
                    &&& packet@.is_packet()
                    &&& has_resolved(packet) ==> final(raw)@ == old(raw)@
                },
                Err(error) => {
                    &&& ip_packet(old(raw)@) == Err::<IpPacketView, PacketParseError>(error)
                    &&& final(raw)@ == old(raw)@
                },
            },
    {
        if raw.is_empty() {
            return Err(PacketParseError::Malformed("truncated IP packet"));
        }
        match version_of(raw[0]) {
            4 => {
                match validate_ipv4(raw) {
                    Ok(()) => {
                        let packet = IpPacket::Ipv4(Ipv4Packet::parse(raw));
                        assert(has_resolved(packet) ==> has_resolved(packet->Ipv4_0));
                        Ok(packet)
                    },
                    Err(error) => Err(error),
                }
            },
            6 => {
                match Ipv6Packet::parse(raw) {
                    Ok(parsed) => {
                        let packet = IpPacket::Ipv6(parsed);
                        assert(has_resolved(packet) ==> has_resolved(packet->Ipv6_0));
                        Ok(packet)
                    },
                    Err(error) => Err(error),
                }
            },
            _ => Err(PacketParseError::Malformed("unsupported IP version")),
        }
    }

    pub fn raw(&self) -> (raw: &[u8])
        ensures
            raw@ == self@.raw(),
    {
        match self {
            IpPacket::Ipv4(packet) => packet.raw(),
            IpPacket::Ipv6(packet) => packet.raw(),
        }
    }

    pub fn length(&self) -> (length: usize)
        ensures
            length == self@.raw().len(),
    {
        self.raw().len()
    }
}

/// The length of the packet at the front of `raw`, once all of it is there.
pub fn front_packet_length(raw: &[u8]) -> (result: Result<Option<usize>, PacketParseError>)
    ensures
        match result {
            Ok(Some(length)) => front_length(raw@) == Ok::<Option<int>, PacketParseError>(
                Some(length as int),
            ),
            Ok(None) => front_length(raw@) == Ok::<Option<int>, PacketParseError>(None),
            Err(error) => front_length(raw@) == Err::<Option<int>, PacketParseError>(error),
        },
{
    if raw.is_empty() {
        return Ok(None);
    }
    match version_of(raw[0]) {
        4 => {
            if raw.len() < 4 {
                return Ok(None);
            }
            let header_length: usize = header_length_of(raw[0]) as usize;
            let total_length: usize = read_u16_at(raw, 2) as usize;
            if header_length < IPV4_MIN_HEADER_LENGTH as usize || total_length < header_length {
                return Err(PacketParseError::Malformed("invalid IPv4 packet length"));
            }
            if raw.len() < total_length {
                Ok(None)
            } else {
                Ok(Some(total_length))
            }
        },
        6 => {
            if raw.len() < 6 {
                return Ok(None);
            }
            let total_length: usize = IPV6_HEADER_LENGTH + read_u16_at(raw, 4) as usize;
            if raw.len() < total_length {
                Ok(None)
            } else {
                Ok(Some(total_length))
            }
        },
        _ => Err(PacketParseError::Malformed("unsupported IP version")),
    }
}

/// Checks everything that reading an IPv4 packet relies on.
fn validate_ipv4(raw: &[u8]) -> (result: Result<(), PacketParseError>)
    ensures
        match result {
            Ok(()) => ipv4_fault(raw@) is None && is_ipv4_readable(raw@),
            Err(error) => ipv4_fault(raw@) == Some(error),
        },
{
    if raw.len() < 4 {
        return Err(PacketParseError::Malformed("truncated IPv4 packet"));
    }
    let header_length: usize = header_length_of(raw[0]) as usize;
    let total_length: usize = read_u16_at(raw, 2) as usize;
    if raw.len() < total_length || header_length < IPV4_MIN_HEADER_LENGTH as usize || total_length
        < header_length {
        return Err(PacketParseError::Malformed("invalid IPv4 packet length"));
    }
    if fragment_bits(raw[6], raw[7]) {
        return Err(PacketParseError::Unsupported(UnsupportedPacket::Ipv4Fragment));
    }
    let protocol: Protocol = protocol_from_number(raw[9]);
    match check_segment(protocol, &raw[header_length..total_length]) {
        Some(fault) => Err(PacketParseError::Malformed(fault)),
        None => Ok(()),
    }
}

/// Law: every complete IPv4 packet that is no fragment, and whose TCP or UDP
/// segment, if it carries one, fits, is read, and reads as its own bytes.
pub proof fn law_wellformed_ipv4_packets_are_read(raw: Seq<u8>)
    requires
        raw[0] / 16 == 4,
        20 <= (raw[0] % 16) * 4 <= raw[2] * 256 + raw[3] <= raw.len(),
        (raw[6] * 256 + raw[7]) % 0x4000 == 0,
        ({
            let start: int = (raw[0] % 16) * 4;
            let length: int = raw[2] * 256 + raw[3] - start;
            &&& raw[9] == 6 ==> 20 <= length && 20 <= (raw[start + 12] / 16) * 4 <= length
            &&& raw[9] == 17 ==> 8 <= length && raw[start + 4] * 256 + raw[start + 5] == length
        }),
    ensures
        ({
            let start: int = (raw[0] % 16) * 4;
            ip_packet(raw) matches Ok(IpPacketView::Ipv4(packet)) && {
                &&& packet.raw == raw.take(raw[2] * 256 + raw[3])
                &&& packet.header.header_length == start
                &&& packet.header.total_length == raw[2] * 256 + raw[3]
                &&& packet.header.source == raw[12] * 0x100_0000 + raw[13] * 0x1_0000 + raw[14]
                    * 0x100 + raw[15]
                &&& packet.header.destination == raw[16] * 0x100_0000 + raw[17] * 0x1_0000 + raw[18]
                    * 0x100 + raw[19]
                &&& packet.header.protocol is Tcp <==> raw[9] == 6
                &&& packet.header.protocol is Udp <==> raw[9] == 17
                &&& packet.transport is Some <==> raw[9] == 6 || raw[9] == 17
                &&& packet.transport matches Some(transport) ==> {
                    &&& transport.protocol == packet.header.protocol
                    &&& transport.source_port == raw[start] * 256 + raw[start + 1]
                    &&& transport.destination_port == raw[start + 2] * 256 + raw[start + 3]
                    &&& transport.header_length == if raw[9] == 6 {
                        (raw[start + 12] / 16) * 4
                    } else {
                        8
                    }
                }
            }
        }),
{
    let start: int = (raw[0] % 16) * 4;
    let segment: Seq<u8> = raw.subrange(start, raw[2] * 256 + raw[3]);
    if raw[9] == 6 {
        assert(segment[12] == raw[start + 12]);
    }
}

/// Law: what is read as an IPv4 packet is well-formed; nothing else is.
pub proof fn law_only_wellformed_ipv4_packets_are_read(raw: Seq<u8>)
    ensures
        ip_packet(raw) matches Ok(IpPacketView::Ipv4(packet)) ==> {
            let start: int = (raw[0] % 16) * 4;
            let length: int = raw[2] * 256 + raw[3] - start;
            &&& raw[0] / 16 == 4
            &&& 20 <= start <= start + length <= raw.len()
            &&& (raw[6] * 256 + raw[7]) % 0x4000 == 0
            &&& raw[9] == 6 ==> 20 <= length && 20 <= (raw[start + 12] / 16) * 4 <= length
            &&& raw[9] == 17 ==> 8 <= length && raw[start + 4] * 256 + raw[start + 5] == length
        },
{
}

/// Law: an IPv4 packet is refused for its lengths before anything else, then as
/// a fragment, and only then for what its segment holds.
pub proof fn law_ipv4_refusals(raw: Seq<u8>)
    requires
        raw.len() > 0,
        raw[0] / 16 == 4,
    ensures
        ({
            let start: int = (raw[0] % 16) * 4;
            let end: int = raw[2] * 256 + raw[3];
            let whole: bool = 20 <= start <= end <= raw.len();
            let fragment: bool = (raw[6] * 256 + raw[7]) % 0x4000 != 0;
            &&& raw.len() < 4 ==> ip_packet(raw) == Err::<IpPacketView, PacketParseError>(
                PacketParseError::Malformed("truncated IPv4 packet"),
            )
            &&& raw.len() >= 4 && !whole ==> ip_packet(raw) == Err::<
                IpPacketView,
                PacketParseError,
            >(PacketParseError::Malformed("invalid IPv4 packet length"))
            &&& raw.len() >= 4 && whole && fragment ==> ip_packet(raw) == Err::<
                IpPacketView,
                PacketParseError,
            >(PacketParseError::Unsupported(UnsupportedPacket::Ipv4Fragment))
        }),
{
}

/// Law: an unfragmented IPv4 packet whose segment does not fit is refused for
/// just that.
pub proof fn law_ipv4_segment_refusals(raw: Seq<u8>)
    requires
        raw[0] / 16 == 4,
        20 <= (raw[0] % 16) * 4 <= raw[2] * 256 + raw[3] <= raw.len(),
        (raw[6] * 256 + raw[7]) % 0x4000 == 0,
    ensures
        ({
            let start: int = (raw[0] % 16) * 4;
            let length: int = raw[2] * 256 + raw[3] - start;
            &&& raw[9] == 6 && length < 20 ==> ip_packet(raw) == Err::<
                IpPacketView,
                PacketParseError,
            >(PacketParseError::Malformed("truncated TCP header"))
            &&& raw[9] == 6 && length >= 20 && !(20 <= (raw[start + 12] / 16) * 4 <= length)
                ==> ip_packet(raw) == Err::<IpPacketView, PacketParseError>(
                PacketParseError::Malformed("invalid TCP header length"),
            )
            &&& raw[9] == 17 && length < 8 ==> ip_packet(raw) == Err::<
                IpPacketView,
                PacketParseError,
            >(PacketParseError::Malformed("truncated UDP header"))
            &&& raw[9] == 17 && length >= 8 && raw[start + 4] * 256 + raw[start + 5] != length
                ==> ip_packet(raw) == Err::<IpPacketView, PacketParseError>(
                PacketParseError::Malformed("invalid UDP length"),
            )
        }),
{
}

/// Law: a packet of version six is read just as it is by itself, and anything of
/// another version, or nothing at all, is malformed.
pub proof fn law_versions_are_told_apart(raw: Seq<u8>)
    ensures
        raw.len() == 0 ==> ip_packet(raw) == Err::<IpPacketView, PacketParseError>(
            PacketParseError::Malformed("truncated IP packet"),
        ),
        raw.len() > 0 && raw[0] / 16 != 4 && raw[0] / 16 != 6 ==> ip_packet(raw) == Err::<
            IpPacketView,
            PacketParseError,
        >(PacketParseError::Malformed("unsupported IP version")),
        raw.len() > 0 && raw[0] / 16 == 6 ==> match ipv6_packet(raw) {
            Ok(packet) => ip_packet(raw) == Ok::<IpPacketView, PacketParseError>(
                IpPacketView::Ipv6(packet),
            ),
            Err(error) => ip_packet(raw) == Err::<IpPacketView, PacketParseError>(error),
        },
{
}

/// Law: a complete packet of version six is as long as its header and its payload
/// together, whatever its next header; so is it with anything behind it, and
/// before that it is waited for.
pub proof fn law_ipv6_packets_are_cut_by_their_payload_length(stream: Seq<u8>)
    requires
        stream.len() > 0,
        stream[0] / 16 == 6,
    ensures
        stream.len() < 6 ==> front_length(stream) == Ok::<Option<int>, PacketParseError>(None),
        stream.len() >= 6 && stream.len() < 40 + stream[4] * 256 + stream[5] ==> front_length(
            stream,
        ) == Ok::<Option<int>, PacketParseError>(None),
        stream.len() >= 6 && stream.len() >= 40 + stream[4] * 256 + stream[5] ==> front_length(
            stream,
        ) == Ok::<Option<int>, PacketParseError>(Some(40 + stream[4] * 256 + stream[5])),
{
}

/// Law: a complete IPv4 packet is as long as its total length says, whatever it
/// carries; before that it is waited for, unless its lengths cannot be right.
pub proof fn law_ipv4_packets_are_cut_by_their_total_length(stream: Seq<u8>)
    requires
        stream.len() > 0,
        stream[0] / 16 == 4,
    ensures
        ({
            let start: int = (stream[0] % 16) * 4;
            let length: int = stream[2] * 256 + stream[3];
            &&& stream.len() < 4 ==> front_length(stream) == Ok::<Option<int>, PacketParseError>(
                None,
            )
            &&& stream.len() >= 4 && !(20 <= start <= length) ==> front_length(stream) == Err::<
                Option<int>,
                PacketParseError,
            >(PacketParseError::Malformed("invalid IPv4 packet length"))
            &&& stream.len() >= 4 && 20 <= start <= length && stream.len() < length
                ==> front_length(stream) == Ok::<Option<int>, PacketParseError>(None)
            &&& stream.len() >= 4 && 20 <= start <= length <= stream.len() ==> front_length(stream)
                == Ok::<Option<int>, PacketParseError>(Some(length))
        }),
{
}

/// Law: an empty stream is waited for, and one that starts with another version
/// is refused at its first byte.
pub proof fn law_other_streams_are_refused_at_once(stream: Seq<u8>)
    ensures
        stream.len() == 0 ==> front_length(stream) == Ok::<Option<int>, PacketParseError>(None),
        stream.len() > 0 && stream[0] / 16 != 4 && stream[0] / 16 != 6 ==> front_length(stream)
            == Err::<Option<int>, PacketParseError>(
            PacketParseError::Malformed("unsupported IP version"),
        ),
{
}

/// Law: a packet of either version is its own bytes, and is read as what it is.
pub proof fn law_packets_of_both_versions_are_their_bytes(
    packet: IpPacket,
    ipv4: Ipv4PacketView,
    ipv6: Ipv6PacketView,
)
    ensures
        packet matches IpPacket::Ipv4(inner) ==> packet@ == IpPacketView::Ipv4(inner@),
        packet matches IpPacket::Ipv6(inner) ==> packet@ == IpPacketView::Ipv6(inner@),
        IpPacketView::Ipv4(ipv4).raw() == ipv4.raw,
        IpPacketView::Ipv6(ipv6).raw() == ipv6.raw,
        IpPacketView::Ipv4(ipv4).is_packet() <==> is_ipv4_packet(ipv4),
        IpPacketView::Ipv6(ipv6).is_packet() <==> is_ipv6_packet(ipv6),
{
}

} // verus!
