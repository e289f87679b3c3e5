//! Wraps payloads from the host into IPv6 packets for the client.

use crate::bytes::{be16, lemma_put16, put, put16, write_at, write_u16_at};
use crate::checksum::{
    checksum_value, ipv6_checksum, law_checksum_completes_the_sum,
    law_receiver_arrives_at_all_ones, law_receiver_folds_the_whole_pseudo_header,
    lemma_words_from_part, receiver_sum, words_from,
};
use crate::ipv4_header::{protocol_of, Protocol};
use crate::ipv4_packet::MAX_PACKET_LENGTH;
use crate::ipv6_header::{ip_version, Ipv6Header, Ipv6HeaderData, IPV6_HEADER_LENGTH};
use crate::ipv6_packet::{ipv6_packet, is_ipv6_packet, Ipv6Packet, Ipv6PacketView};
use crate::transport_header::{
    holds_transport_header, transport_fields, with_payload_length, TransportFields,
    TransportHeader, TransportHeaderData,
};
use vstd::prelude::*;

verus! {

/// Offset of the UDP checksum field inside the UDP header.
pub const UDP_CHECKSUM_OFFSET: usize = 6;

/// Offset of the TCP checksum field inside the TCP header.
pub const TCP_CHECKSUM_OFFSET: usize = 16;

/// Converts from level 5 to level 3 by prepending correct IPv6 and transport
/// headers.
///
/// The headers mirror those of a reference packet from the client, so that the
/// packets travel back to it.
pub struct Ipv6Packetizer {
    buffer: Vec<u8>,
    payload_index: usize,
    ipv6_header_data: Ipv6HeaderData,
    transport_header_data: TransportHeaderData,
    protocol: Protocol,
}

/// What every packet of a packetizer has in common: its headers, in which the
/// fields that depend on the payload hold zero.
#[verifier::ext_equal]
pub struct PacketizerView {
    pub header: Seq<u8>,
    pub transport: Seq<u8>,
    pub fields: TransportFields,
    pub protocol: Protocol,
}

/// Where the checksum lies inside the transport header.
pub open spec fn checksum_offset(protocol: Protocol) -> int {
    if protocol is Tcp {
        TCP_CHECKSUM_OFFSET as int
    } else {
        UDP_CHECKSUM_OFFSET as int
    }
}

/// A transport header in which the fields that depend on the payload hold zero.
pub open spec fn blank_transport(protocol: Protocol, transport: Seq<u8>) -> Seq<u8> {
    match protocol {
        Protocol::Udp => put16(put16(transport, 4, 0), UDP_CHECKSUM_OFFSET as int, 0),
        Protocol::Tcp if transport.len() >= TCP_CHECKSUM_OFFSET + 2 => put16(
            transport,
            TCP_CHECKSUM_OFFSET as int,
            0,
        ),
        _ => transport,
    }
}

/// The checksum that a packet carries: a computed UDP checksum of zero is
/// transmitted as all ones (RFC 768).
pub open spec fn transmitted_checksum(protocol: Protocol, checksum: int) -> int {
    if checksum == 0 && protocol is Udp {
        0xffff
    } else {
        checksum
    }
}

impl PacketizerView {
    /// The headers are those of packets that can be read again.
    pub open spec fn ready(self) -> bool {
        &&& self.header.len() == IPV6_HEADER_LENGTH
        &&& ip_version(self.header) == 6
        &&& be16(self.header, 4) == 0
        &&& self.protocol == self.fields.protocol
        &&& self.protocol == protocol_of(self.header[6])
        &&& !(self.protocol is Other)
        &&& holds_transport_header(self.protocol, self.transport)
        &&& transport_fields(self.protocol, self.transport) == Some(self.fields)
        &&& self.transport.len() == self.fields.header_length
        &&& self.transport == blank_transport(self.protocol, self.transport)
    }

    /// How many payload bytes a packet has room for.
    pub open spec fn room(self) -> int {
        MAX_PACKET_LENGTH - IPV6_HEADER_LENGTH - self.transport.len()
    }

    /// The IPv6 header of the packet for a payload of this length; its payload
    /// length counts every byte after the fixed header.
    pub open spec fn ipv6_header(self, payload_length: int) -> Seq<u8> {
        put16(self.header, 4, self.transport.len() + payload_length)
    }

    /// The transport segment for this payload, with a zeroed checksum field.
    pub open spec fn unsummed_segment(self, payload: Seq<u8>) -> Seq<u8> {
        with_payload_length(self.protocol, self.transport, payload.len() as int) + payload
    }

    /// The checksum of the packet for this payload.
    pub open spec fn checksum(self, payload: Seq<u8>) -> int {
        transmitted_checksum(
            self.protocol,
            checksum_value(
                self.header.subrange(8, 24),
                self.header.subrange(24, 40),
                self.header[6],
                self.unsummed_segment(payload),
            ),
        )
    }

    /// The packet for this payload.
    pub open spec fn packet(self, payload: Seq<u8>) -> Seq<u8> {
        self.ipv6_header(payload.len() as int) + put16(
            self.unsummed_segment(payload),
            checksum_offset(self.protocol),
            self.checksum(payload),
        )
    }
}

/// What a packetizer takes over from its reference headers: the IPv6 header
/// with the addresses swapped, and the transport header with the ports swapped.
pub open spec fn mirrored(
    reference_ipv6_header: Ipv6Header,
    reference_transport_header: TransportHeader,
) -> PacketizerView {
    let ipv6 = reference_ipv6_header.fields();
    let transport = reference_transport_header.fields();
    PacketizerView {
        header: put16(
            put(put(reference_ipv6_header.bytes(), 8, ipv6.destination), 24, ipv6.source),
            4,
            0,
        ),
        transport: blank_transport(
            transport.protocol,
            put16(
                put16(reference_transport_header.bytes(), 0, transport.destination_port),
                2,
                transport.source_port,
            ),
        ),
        fields: transport.reversed(),
        protocol: if ipv6.next_header == 6 {
            Protocol::Tcp
        } else {
            Protocol::Udp
        },
    }
}

/// Both headers are whole and agree on the upper layer, as the two headers of one
/// packet do.
pub open spec fn is_reference(
    reference_ipv6_header: Ipv6Header,
    reference_transport_header: TransportHeader,
) -> bool {
    &&& reference_ipv6_header.faithful()
    &&& reference_transport_header.faithful()
    &&& protocol_of(reference_ipv6_header.fields().next_header)
        == reference_transport_header.fields().protocol
}

/// A checksum is a 16-bit number.
proof fn lemma_checksum_fits(view: PacketizerView, payload: Seq<u8>)
    ensures
        0 <= view.checksum(payload) <= 0xffff,
{
}

/// The headers of one packet are fit for synthesizing packets from.
pub proof fn lemma_mirrored_is_ready(
    reference_ipv6_header: Ipv6Header,
    reference_transport_header: TransportHeader,
)
    requires
        is_reference(reference_ipv6_header, reference_transport_header),
    ensures
        mirrored(reference_ipv6_header, reference_transport_header).ready(),
{
    let view: PacketizerView = mirrored(reference_ipv6_header, reference_transport_header);
    assert(view.transport =~= blank_transport(view.protocol, view.transport));
}

/// Law: the packet for a payload can be read again, and what is read is that
/// payload behind the packetizer's headers.
pub proof fn law_packet_reads_back(view: PacketizerView, payload: Seq<u8>)
    requires
        view.ready(),
        payload.len() <= view.room(),
    ensures
        ipv6_packet(view.packet(payload)) matches Ok(read) && {
            &&& read.raw == view.packet(payload)
            &&& read.header.payload_length == view.transport.len() + payload.len()
            &&& read.header.next_header == view.header[6]
            &&& read.header.source == view.header.subrange(8, 24)
            &&& read.header.destination == view.header.subrange(24, 40)
            &&& read.transport == view.fields
            &&& read.raw.skip(IPV6_HEADER_LENGTH + read.transport.header_length) == payload
        },
{
    let packet: Seq<u8> = view.packet(payload);
    let header: Seq<u8> = view.ipv6_header(payload.len() as int);
    let segment: Seq<u8> = packet.skip(40);
    lemma_put16(view.header, 4, view.transport.len() + payload.len() as int);
    lemma_checksum_fits(view, payload);
    assert(packet.take(40) =~= header);
    assert(packet.subrange(8, 24) =~= view.header.subrange(8, 24));
    assert(packet.subrange(24, 40) =~= view.header.subrange(24, 40));
    assert(packet.subrange(40, packet.len() as int) =~= segment);
    assert(packet.take(packet.len() as int) =~= packet);
    assert(packet.skip(40 + view.transport.len() as int) =~= payload);
    if view.protocol is Udp {
        lemma_put16(view.transport, 4, 8 + payload.len() as int);
        assert(be16(segment, 4) == be16(put16(view.transport, 4, 8 + payload.len() as int), 4));
    }
}

/// Law: a receiver that folds the pseudo header and the segment of any packet of
/// a packetizer arrives at `0xffff`.
pub proof fn law_receiver_accepts_packet(view: PacketizerView, payload: Seq<u8>)
    requires
        view.ready(),
        payload.len() <= view.room(),
    ensures
        ({
            let packet = view.packet(payload);
            receiver_sum(
                packet.subrange(8, 24),
                packet.subrange(24, 40),
                packet[6],
                packet.skip(IPV6_HEADER_LENGTH as int),
            ) == 0xffff
        }),
{
    let packet: Seq<u8> = view.packet(payload);
    let segment: Seq<u8> = view.unsummed_segment(payload);
    let at: int = checksum_offset(view.protocol);
    lemma_put16(view.header, 4, view.transport.len() + payload.len() as int);
    assert(packet.subrange(8, 24) =~= view.header.subrange(8, 24));
    assert(packet.subrange(24, 40) =~= view.header.subrange(24, 40));
    assert(packet.skip(40) =~= put16(segment, at, view.checksum(payload)));
    assert(be16(view.transport, at) == 0);
    assert(be16(segment, at) == 0);
    law_receiver_arrives_at_all_ones(
        view.header.subrange(8, 24),
        view.header.subrange(24, 40),
        view.header[6],
        segment,
        at,
        view.checksum(payload),
    );
}

/// Law: no UDP packet carries a checksum of zero, which would mean that there is
/// none.
pub proof fn law_udp_checksum_is_present(view: PacketizerView, payload: Seq<u8>)
    requires
        view.ready(),
        view.protocol is Udp,
        payload.len() <= view.room(),
    ensures
        be16(view.packet(payload), IPV6_HEADER_LENGTH + UDP_CHECKSUM_OFFSET) != 0,
{
    lemma_checksum_fits(view, payload);
    lemma_put16(
        view.unsummed_segment(payload),
        UDP_CHECKSUM_OFFSET as int,
        view.checksum(payload),
    );
}

/// Law: every packet synthesized from the headers of a packet of the client
/// travels back to it: the addresses and the ports have changed places, and the
/// upper layer has stayed.
pub proof fn law_packet_travels_back(
    reference_ipv6_header: Ipv6Header,
    reference_transport_header: TransportHeader,
    payload: Seq<u8>,
)
    requires
        is_reference(reference_ipv6_header, reference_transport_header),
        payload.len() <= mirrored(reference_ipv6_header, reference_transport_header).room(),
    ensures
        ipv6_packet(
            mirrored(reference_ipv6_header, reference_transport_header).packet(payload),
        ) matches Ok(read) && {
            &&& read.header.source == reference_ipv6_header.fields().destination
            &&& read.header.destination == reference_ipv6_header.fields().source
            &&& read.header.next_header == reference_ipv6_header.fields().next_header
            &&& read.transport == reference_transport_header.fields().reversed()
        },
{
    let view: PacketizerView = mirrored(reference_ipv6_header, reference_transport_header);
    lemma_mirrored_is_ready(reference_ipv6_header, reference_transport_header);
    law_packet_reads_back(view, payload);
    assert(view.header.subrange(8, 24) =~= reference_ipv6_header.fields().destination);
    assert(view.header.subrange(24, 40) =~= reference_ipv6_header.fields().source);
}

/// `buffer` with its checksum field filled from what the packet of this length
/// at its front holds.
spec fn summed(protocol: Protocol, buffer: Seq<u8>, total_length: int) -> Seq<u8> {
    let at: int = IPV6_HEADER_LENGTH + checksum_offset(protocol);
    let zeroed: Seq<u8> = put16(buffer, at, 0);
    put16(
        zeroed,
        at,
        transmitted_checksum(
            protocol,
            checksum_value(
                zeroed.subrange(8, 24),
                zeroed.subrange(24, 40),
                zeroed[6],
                zeroed.subrange(IPV6_HEADER_LENGTH as int, total_length),
            ),
        ),
    )
}

/// Filling in the lengths and then the checksum makes the packet for the payload
/// behind the headers, and leaves what the packets have in common.
proof fn lemma_headers_completed(
    view: PacketizerView,
    before: Seq<u8>,
    payload_length: int,
    unsummed: Seq<u8>,
    after: Seq<u8>,
)
    requires
        view.ready(),
        before.len() == MAX_PACKET_LENGTH,
        0 <= payload_length <= view.room(),
        view.header == put16(before.take(40), 4, 0),
        view.transport == blank_transport(
            view.protocol,
            before.subrange(40, 40 + view.transport.len() as int),
        ),
        ({
            let lengthened: Seq<u8> = put16(before, 4, view.transport.len() + payload_length);
            unsummed == lengthened.take(40) + with_payload_length(
                view.protocol,
                lengthened.skip(40),
                payload_length,
            )
        }),
        after == summed(view.protocol, unsummed, 40 + view.transport.len() as int + payload_length),
    ensures
        ({
            let start: int = 40 + view.transport.len() as int;
            &&& after.len() == MAX_PACKET_LENGTH
            &&& after.take(start + payload_length) == view.packet(
                before.subrange(start, start + payload_length),
            )
            &&& put16(after.take(40), 4, 0) == view.header
            &&& blank_transport(view.protocol, after.subrange(40, start)) == view.transport
            &&& after[6] == before[6]
        }),
{
    let start: int = 40 + view.transport.len() as int;
    let total: int = start + payload_length;
    let payload: Seq<u8> = before.subrange(start, total);
    let at: int = 40 + checksum_offset(view.protocol);
    let zeroed: Seq<u8> = put16(unsummed, at, 0);
    assert(unsummed.len() == before.len());
    assert(forall|i: int| start <= i < before.len() ==> unsummed[i] == before[i]);
    assert(zeroed.take(40) =~= view.ipv6_header(payload_length));
    assert(zeroed.subrange(8, 24) =~= view.header.subrange(8, 24));
    assert(zeroed.subrange(24, 40) =~= view.header.subrange(24, 40));
    let segment: Seq<u8> = view.unsummed_segment(payload);
    assert(zeroed.subrange(40, total) =~= segment) by {
        assert(zeroed.subrange(start, total) =~= payload);
        assert(zeroed.subrange(40, start) =~= with_payload_length(
            view.protocol,
            view.transport,
            payload_length,
        ));
    }
    assert(after == put16(zeroed, at, view.checksum(payload)));
    assert(after.take(total) =~= view.packet(payload));
    assert(put16(after.take(40), 4, 0) =~= view.header);
    assert(blank_transport(view.protocol, after.subrange(40, start)) =~= view.transport);
}

impl View for Ipv6Packetizer {
    type V = PacketizerView;

    closed spec fn view(&self) -> PacketizerView {
        PacketizerView {
            header: put16(self.buffer@.take(IPV6_HEADER_LENGTH as int), 4, 0),
            transport: blank_transport(
                self.transport_header_data@.protocol,
                self.buffer@.subrange(IPV6_HEADER_LENGTH as int, self.payload_index as int),
            ),
            fields: self.transport_header_data@,
            protocol: self.protocol,
        }
    }
}

impl Ipv6Packetizer {
    /// The headers lie at the front of a buffer that has room for any packet.
    pub closed spec fn wf(&self) -> bool {
        &&& self.buffer@.len() == MAX_PACKET_LENGTH
        &&& self.payload_index == IPV6_HEADER_LENGTH + self.transport_header_data@.header_length
        &&& IPV6_HEADER_LENGTH <= self.payload_index <= MAX_PACKET_LENGTH
        &&& self.ipv6_header_data@.next_header == self.buffer@[6]
    }

    pub fn new(
        reference_ipv6_header: &Ipv6Header,
        reference_transport_header: &TransportHeader,
    ) -> (packetizer: Self)
        requires
            reference_ipv6_header.bytes().len() == IPV6_HEADER_LENGTH,
            ip_version(reference_ipv6_header.bytes()) == 6,
            reference_transport_header.bytes().len()
                == reference_transport_header.fields().header_length,
            reference_transport_header.bytes().len() >= 4,
        ensures
            packetizer.wf(),
            packetizer@ == mirrored(*reference_ipv6_header, *reference_transport_header),
            is_reference(*reference_ipv6_header, *reference_transport_header)
                ==> packetizer@.ready(),
    {
        proof {
            if is_reference(*reference_ipv6_header, *reference_transport_header) {
                lemma_mirrored_is_ready(*reference_ipv6_header, *reference_transport_header);
            }
        }
        let mut buffer: Vec<u8> = vec![0u8;MAX_PACKET_LENGTH];
        let transport_header_length: usize = reference_transport_header.header_length() as usize;
        let payload_index: usize = IPV6_HEADER_LENGTH + transport_header_length;
        let mut transport_header_data: TransportHeaderData =
            reference_transport_header.data_clone();
        let protocol: Protocol = match reference_ipv6_header.next_header() {
            6 => Protocol::Tcp,
            _ => Protocol::Udp,
        };

        // Copy the reference IPv6 header, then swap the endpoints so the
        // synthesized packets travel back towards the client.
        let ghost header: Seq<u8> = reference_ipv6_header.bytes();
        let source: [u8; 16] = reference_ipv6_header.source();
        let destination: [u8; 16] = reference_ipv6_header.destination();
        write_at(buffer.as_mut_slice(), 0, reference_ipv6_header.raw());
        write_at(buffer.as_mut_slice(), 8, &destination);
        write_at(buffer.as_mut_slice(), 24, &source);
        assert(buffer@.take(40) =~= put(put(header, 8, destination@), 24, source@));

        let ghost transport: Seq<u8> = reference_transport_header.bytes();
        write_at(buffer.as_mut_slice(), IPV6_HEADER_LENGTH, reference_transport_header.raw());
        assert(buffer@.subrange(40, payload_index as int) =~= transport);
        let (ipv6_header_raw, rest) = buffer.as_mut_slice().split_at_mut(IPV6_HEADER_LENGTH);
        transport_header_data.swap_source_and_destination(rest);
        assert(ipv6_header_raw@.len() == 40);
        assert(buffer@.take(40) =~= put(put(header, 8, destination@), 24, source@));
        assert(buffer@.subrange(40, payload_index as int) =~= put16(
            put16(transport, 0, reference_transport_header.fields().destination_port),
            2,
            reference_transport_header.fields().source_port,
        ));

        // The cached header data must describe the swapped buffer. The payload
        // length still refers to bytes the buffer does not hold yet; `build`
        // rewrites that field for every synthesized packet.
        let ipv6_header_data: Ipv6HeaderData = Ipv6HeaderData::parse_header_only(
            &buffer[0..IPV6_HEADER_LENGTH],
        ).unwrap();
        Ipv6Packetizer {
            buffer,
            payload_index,
            ipv6_header_data,
            transport_header_data,
            protocol,
        }
    }

    /// How many payload bytes may be read for the next packet: as many as fit,
    /// and no more than the caller's limit.
    pub fn read_limit(&self, max_chunk_size: Option<usize>) -> (limit: usize)
        requires
            self.wf(),
        ensures
            limit == match max_chunk_size {
                Some(max) if max < self@.room() => max as int,
                _ => self@.room(),
            },
    {
        let room: usize = self.buffer.len() - self.payload_index;
        match max_chunk_size {
            Some(max) => if max < room {
                max
            } else {
                room
            },
            None => room,
        }
    }

    /// The packet without a payload.
    pub fn packetize_empty_payload(&mut self) -> (packet: Ipv6Packet<'_>)
        requires
            old(self).wf(),
            old(self)@.ready(),
        ensures
            packet@.raw == old(self)@.packet(Seq::empty()),
            is_ipv6_packet(packet@),
            has_resolved(packet) ==> final(self).wf() && final(self)@ == old(self)@,
    {
        self.build(0)
    }

    /// The packet for a datagram that the host received.
    pub fn packetize(&mut self, datagram: &[u8]) -> (packet: Ipv6Packet<'_>)
        requires
            old(self).wf(),
            old(self)@.ready(),
            datagram@.len() <= old(self)@.room(),
        ensures
            packet@.raw == old(self)@.packet(datagram@),
            is_ipv6_packet(packet@),
            has_resolved(packet) ==> final(self).wf() && final(self)@ == old(self)@,
    {
        let payload_index: usize = self.payload_index;
        write_at(self.buffer.as_mut_slice(), payload_index, datagram);
        assert(self@ =~= old(self)@);
        assert(self.payload_bytes(datagram@.len() as int) =~= datagram@);
        self.build(datagram.len() as u16)
    }

    /// The packet for a chunk that the host read from a stream; an empty chunk
    /// is the end of the stream, for which there is no packet.
    pub fn packetize_read(&mut self, chunk: &[u8]) -> (packet: Option<Ipv6Packet<'_>>)
        requires
            old(self).wf(),
            old(self)@.ready(),
            chunk@.len() <= old(self)@.room(),
        ensures
            match packet {
                Some(packet) => {
                    &&& chunk@.len() > 0
                    &&& packet@.raw == old(self)@.packet(chunk@)
                    &&& is_ipv6_packet(packet@)
                    &&& has_resolved(packet) ==> final(self).wf() && final(self)@ == old(self)@
                },
                None => {
                    &&& chunk@.len() == 0
                    &&& final(self).wf()
                    &&& final(self)@ == old(self)@
                },
            },
    {
        if chunk.len() > 0 {
            Some(self.packetize(chunk))
        } else {
            None
        }
    }

    /// Completes the headers for the `payload_length` bytes that lie behind them.
    fn build(&mut self, payload_length: u16) -> (packet: Ipv6Packet<'_>)
        requires
            old(self).wf(),
            old(self)@.ready(),
            payload_length <= old(self)@.room(),
        ensures
            packet@.raw == old(self)@.packet(old(self).payload_bytes(payload_length as int)),
            is_ipv6_packet(packet@),
            has_resolved(packet) ==> final(self).wf() && final(self)@ == old(self)@,
    {
        let ghost view: PacketizerView = self@;
        let ghost payload: Seq<u8> = self.payload_bytes(payload_length as int);
        let total_length: usize = self.complete_headers(payload_length);
        proof {
            law_packet_reads_back(view, payload);
        }
        let (raw, rest) = self.buffer.as_mut_slice().split_at_mut(total_length);
        Ipv6Packet::parse(raw).unwrap()
    }

    /// Fills in the lengths and the checksum for the `payload_length` bytes that
    /// lie behind the headers; the result is the length of the packet.
    fn complete_headers(&mut self, payload_length: u16) -> (total_length: usize)
        requires
            old(self).wf(),
            old(self)@.ready(),
            payload_length <= old(self)@.room(),
        ensures
            final(self).wf(),
            final(self)@ == old(self)@,
            total_length <= MAX_PACKET_LENGTH,
            final(self).buffer@.take(total_length as int) == old(self)@.packet(
                old(self).payload_bytes(payload_length as int),
            ),
    {
        let ghost view: PacketizerView = self@;
        let ghost before: Seq<u8> = self.buffer@;
        let payload_index: usize = self.payload_index;
        let transport_length: u16 = (payload_index - IPV6_HEADER_LENGTH) as u16 + payload_length;
        let total_length: usize = IPV6_HEADER_LENGTH + transport_length as usize;

        // The IPv6 payload length counts every byte after the 40-byte fixed header.
        write_u16_at(self.buffer.as_mut_slice(), 4, transport_length);
        let (ipv6_header_raw, rest) = self.buffer.as_mut_slice().split_at_mut(IPV6_HEADER_LENGTH);
        self.transport_header_data.set_payload_length(rest, payload_length);
        assert(ipv6_header_raw@.len() == 40);
        let ghost unsummed: Seq<u8> = self.buffer@;
        self.update_checksum(total_length);
        proof {
            lemma_headers_completed(view, before, payload_length as int, unsummed, self.buffer@);
        }
        total_length
    }

    /// The bytes that lie behind the headers.
    spec fn payload_bytes(&self, length: int) -> Seq<u8> {
        self.buffer@.subrange(self.payload_index as int, self.payload_index + length)
    }

    /// Computes the transport checksum over the pseudo header.
    fn update_checksum(&mut self, total_length: usize)
        requires
            old(self).wf(),
            IPV6_HEADER_LENGTH + checksum_offset(old(self).protocol) + 2 <= total_length
                <= MAX_PACKET_LENGTH,
        ensures
            final(self).wf(),
            final(self).payload_index == old(self).payload_index,
            final(self).ipv6_header_data == old(self).ipv6_header_data,
            final(self).transport_header_data == old(self).transport_header_data,
            final(self).protocol == old(self).protocol,
            final(self).buffer@ == summed(
                old(self).protocol,
                old(self).buffer@,
                total_length as int,
            ),
    {
        let checksum_index: usize = IPV6_HEADER_LENGTH + match self.protocol {
            Protocol::Tcp => TCP_CHECKSUM_OFFSET,
            _ => UDP_CHECKSUM_OFFSET,
        };

        // Zero the field before folding, otherwise the stale value pollutes the sum.
        write_u16_at(self.buffer.as_mut_slice(), checksum_index, 0);
        let computed: u16 = ipv6_checksum(
            &self.buffer[8..24],
            &self.buffer[24..40],
            self.ipv6_header_data.next_header(),
            &self.buffer[IPV6_HEADER_LENGTH..total_length],
        );

        // RFC 768: a computed UDP checksum of zero is transmitted as all ones.
        let checksum: u16 = if computed == 0 && self.protocol == Protocol::Udp {
            0xffff
        } else {
            computed
        };
        write_u16_at(self.buffer.as_mut_slice(), checksum_index, checksum);
    }
}

/// Law: a response is, byte for byte, the request turned round: the addresses and
/// the ports have changed places, the length fields count the new payload, which
/// follows the headers, and of the other bytes of the headers none but the
/// checksum has changed. There is one for every payload that fits.
pub proof fn law_response_mirrors_the_request(
    request: Ipv6PacketView,
    ipv6_header: Ipv6Header,
    transport_header: TransportHeader,
    payload: Seq<u8>,
)
    requires
        is_ipv6_packet(request),
        ipv6_header.bytes() == request.raw.take(40),
        ipv6_header.fields() == request.header,
        transport_header.bytes() == request.raw.subrange(
            40,
            40 + request.transport.header_length,
        ),
        transport_header.fields() == request.transport,
        payload.len() + 40 + request.transport.header_length <= 65536,
    ensures
        ({
            let view: PacketizerView = mirrored(ipv6_header, transport_header);
            let sent: Seq<u8> = request.raw;
            let back: Seq<u8> = view.packet(payload);
            let start: int = if sent[6] == 6 {
                40 + (sent[52] / 16) * 4
            } else {
                48
            };
            &&& is_reference(ipv6_header, transport_header)
            &&& view.ready()
            &&& view.room() == 65536 - start
            &&& back.len() == start + payload.len()
            &&& back.skip(start) == payload
            &&& back.take(4) == sent.take(4)
            &&& back[4] * 256 + back[5] == back.len() - 40
            &&& back[6] == sent[6]
            &&& back[7] == sent[7]
            &&& back.subrange(8, 24) == sent.subrange(24, 40)
            &&& back.subrange(24, 40) == sent.subrange(8, 24)
            &&& back.subrange(40, 42) == sent.subrange(42, 44)
            &&& back.subrange(42, 44) == sent.subrange(40, 42)
            &&& sent[6] == 17 ==> back[44] * 256 + back[45] == back.len() - 40
            &&& sent[6] == 6 ==> back.subrange(44, 56) == sent.subrange(44, 56)
            &&& sent[6] == 6 ==> back.subrange(58, start) == sent.subrange(58, start)
        }),
{
    let view: PacketizerView = mirrored(ipv6_header, transport_header);
    let sent: Seq<u8> = request.raw;
    let back: Seq<u8> = view.packet(payload);
    let hl: int = request.transport.header_length;
    let start: int = 40 + hl;
    let header: Seq<u8> = ipv6_header.bytes();
    let transport: Seq<u8> = transport_header.bytes();
    let segment: Seq<u8> = sent.subrange(40, 40 + request.header.payload_length);
    assert(sent.take(40 + request.header.payload_length) =~= sent);
    assert(header.subrange(8, 24) =~= sent.subrange(8, 24));
    assert(header.subrange(24, 40) =~= sent.subrange(24, 40));
    assert(segment[0] == sent[40] && segment[1] == sent[41] && segment[2] == sent[42] && segment[3]
        == sent[43]);
    if sent[6] == 6 {
        assert(segment[12] == sent[52]);
    }
    assert(transport.len() == hl);
    assert(transport[0] == sent[40] && transport[1] == sent[41] && transport[2] == sent[42]
        && transport[3] == sent[43]);
    lemma_mirrored_is_ready(ipv6_header, transport_header);
    lemma_checksum_fits(view, payload);
    assert(view.transport.len() == hl);
    assert(view.header.subrange(8, 24) =~= sent.subrange(24, 40));
    assert(view.header.subrange(24, 40) =~= sent.subrange(8, 24));
    lemma_put16(view.header, 4, view.transport.len() + payload.len() as int);
    assert(back.take(40) =~= view.ipv6_header(payload.len() as int));
    assert(back.skip(start) =~= payload);
    assert(back.take(4) =~= sent.take(4));
    assert(back.subrange(8, 24) =~= sent.subrange(24, 40));
    assert(back.subrange(24, 40) =~= sent.subrange(8, 24));
    assert(back.subrange(40, 42) =~= sent.subrange(42, 44));
    assert(back.subrange(42, 44) =~= sent.subrange(40, 42));
    if sent[6] == 6 {
        assert(back.subrange(44, 56) =~= sent.subrange(44, 56));
        assert(back.subrange(58, start) =~= sent.subrange(58, start));
    }
}

/// Law: the checksum of every packet is the one of RFC 8200 over the packet's own
/// bytes: all sixteen words of the addresses, the length of the segment, the next
/// header and every word of the segment, in which the checksum lies, add up to a
/// multiple of `0xffff`; and of the two zeros of that arithmetic TCP sends the one
/// and UDP the other.
pub proof fn law_packet_words_add_up(view: PacketizerView, payload: Seq<u8>)
    requires
        view.ready(),
        payload.len() <= view.room(),
    ensures
        ({
            let packet: Seq<u8> = view.packet(payload);
            &&& ((packet[8] + packet[10] + packet[12] + packet[14] + packet[16] + packet[18]
                + packet[20] + packet[22] + packet[24] + packet[26] + packet[28] + packet[30]
                + packet[32] + packet[34] + packet[36] + packet[38]) * 256 + packet[9] + packet[11]
                + packet[13] + packet[15] + packet[17] + packet[19] + packet[21] + packet[23]
                + packet[25] + packet[27] + packet[29] + packet[31] + packet[33] + packet[35]
                + packet[37] + packet[39] + (packet.len() - 40) + packet[6] + words_from(
                packet,
                40,
            )) % 0xffff == 0
            &&& packet[6] == 6 ==> packet[56] * 256 + packet[57] != 0xffff
            &&& packet[6] == 17 ==> packet[46] * 256 + packet[47] != 0
        }),
{
    let packet: Seq<u8> = view.packet(payload);
    let segment: Seq<u8> = packet.skip(40);
    let source: Seq<u8> = packet.subrange(8, 24);
    let destination: Seq<u8> = packet.subrange(24, 40);
    lemma_put16(view.header, 4, view.transport.len() + payload.len() as int);
    lemma_checksum_fits(view, payload);
    law_receiver_accepts_packet(view, payload);
    law_receiver_folds_the_whole_pseudo_header(source, destination, packet[6], segment);
    lemma_words_from_part(packet, 40, 0);
    assert(segment.len() == packet.len() - 40);
    assert(packet[6] == view.header[6]);
    lemma_checksum_field(view, payload);
}

/// What the checksum field of a packet holds.
proof fn lemma_checksum_field(view: PacketizerView, payload: Seq<u8>)
    requires
        view.ready(),
        payload.len() <= view.room(),
    ensures
        be16(view.packet(payload), 40 + checksum_offset(view.protocol)) == view.checksum(payload),
        view.protocol is Tcp ==> view.checksum(payload) != 0xffff,
        view.protocol is Udp ==> view.checksum(payload) != 0,
{
    let unsummed: Seq<u8> = view.unsummed_segment(payload);
    let at: int = checksum_offset(view.protocol);
    lemma_checksum_fits(view, payload);
    lemma_put16(unsummed, at, view.checksum(payload));
    law_checksum_completes_the_sum(
        view.header.subrange(8, 24),
        view.header.subrange(24, 40),
        view.header[6],
        unsummed,
    );
}

/// Law: a packet carries its payload behind headers that do not depend on it but
/// for the lengths and the checksum: two packets of one packetizer differ nowhere
/// else.
pub proof fn law_packets_share_their_headers(
    view: PacketizerView,
    first: Seq<u8>,
    second: Seq<u8>,
    i: int,
)
    requires
        view.ready(),
        first.len() <= view.room(),
        second.len() <= view.room(),
        0 <= i < 40 + view.fields.header_length,
        i != 4,
        i != 5,
        view.protocol is Tcp ==> i != 56 && i != 57,
        view.protocol is Udp ==> i < 44,
    ensures
        view.packet(first)[i] == view.packet(second)[i],
{
}

} // verus!
