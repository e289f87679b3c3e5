//! Cuts a stream of bytes into IPv4 packets.

use crate::byte_buffer::ByteBuffer;
use crate::bytes::be16;
use crate::error::{Error, ErrorKind};
use crate::ip_packet::{IpPacketView, PacketParseError, UnsupportedPacket};
use crate::ip_packet_buffer::front_packet;
use crate::ipv4_header::{
    header_length_of, ipv4_header_length, peek_version_length, protocol_from_number, protocol_of,
    Protocol, IPV4_MIN_HEADER_LENGTH,
};
use crate::ipv4_packet::{
    fragment_bits, ipv4_packet, is_ipv4_fragment, is_ipv4_packet, is_ipv4_readable, Ipv4Packet,
    Ipv4PacketView, MAX_PACKET_LENGTH,
};
use crate::ipv6_header::{ip_version, version_of};
use crate::transport_header::{check_segment, segment_fault};
use vstd::prelude::*;

verus! {

pub struct Ipv4PacketBuffer {
    buf: ByteBuffer,
}

/// Nothing speaks against the stream being one of IPv4 packets yet: the packet
/// at its front announces version 4, if it announces anything.
pub open spec fn is_ipv4_stream(stream: Seq<u8>) -> bool {
    stream.len() >= 4 ==> ip_version(stream) == 4
}

/// The packet at the front of the stream is all there.
pub open spec fn is_frame_available(stream: Seq<u8>) -> bool {
    stream.len() >= 4 && be16(stream, 2) <= stream.len()
}

/// The packet at the front of the stream is all there, and it is a fragment.
pub open spec fn is_fragmented_frame(stream: Seq<u8>) -> bool {
    stream.len() >= 20 && is_frame_available(stream) && is_ipv4_fragment(stream)
}

/// The front of the stream cannot be an IPv4 packet: the version or the lengths
/// are wrong or, once the packet is all there and unless it is a fragment, its
/// transport header is.
pub open spec fn is_malformed_frame(stream: Seq<u8>) -> bool {
    let header_length = ipv4_header_length(stream);
    let total_length = be16(stream, 2);
    &&& stream.len() >= 4
    &&& {
        ||| ip_version(stream) != 4
        ||| !(IPV4_MIN_HEADER_LENGTH <= header_length <= total_length)
        ||| {
            &&& total_length <= stream.len()
            &&& !is_ipv4_fragment(stream)
            &&& segment_fault(
                protocol_of(stream[9]),
                stream.subrange(header_length, total_length),
            ) is Some
        }
    }
}

/// The fault that a malformed stream is refused with.
pub open spec fn malformed_frame() -> Error {
    Error { kind: ErrorKind::InvalidData, message: "Malformed IP/transport frame" }
}

/// Law: a malformed stream cannot reach the parsers: what passes the check is a
/// stream of IPv4 packets and, once the packet at its front is all there, that
/// packet is never empty and, unless it is a fragment, can be read.
pub proof fn law_checked_frame_can_be_read(stream: Seq<u8>)
    requires
        !is_malformed_frame(stream),
    ensures
        is_ipv4_stream(stream),
        is_frame_available(stream) ==> be16(stream, 2) >= IPV4_MIN_HEADER_LENGTH,
        is_frame_available(stream) && !is_fragmented_frame(stream) ==> is_ipv4_readable(stream),
{
}

/// Law: a malformed frame stays malformed, whatever follows it.
pub proof fn law_malformed_frame_stays_malformed(stream: Seq<u8>, more: Seq<u8>)
    requires
        is_malformed_frame(stream),
    ensures
        is_malformed_frame(stream + more),
{
    let total_length: int = be16(stream, 2);
    if IPV4_MIN_HEADER_LENGTH <= ipv4_header_length(stream) <= total_length <= stream.len() {
        assert((stream + more).subrange(ipv4_header_length(stream), total_length)
            =~= stream.subrange(ipv4_header_length(stream), total_length));
    }
}

/// Law: an IPv4 packet that has arrived in part is waited for; with its last byte
/// it is there, whatever follows it, and dropping it leaves just what follows.
pub proof fn law_frame_arrives_with_its_last_byte(
    packet: Ipv4PacketView,
    more: Seq<u8>,
    part: int,
)
    requires
        is_ipv4_packet(packet),
        0 <= part < packet.raw.len(),
    ensures
        !is_frame_available(packet.raw.take(part)),
        is_frame_available(packet.raw + more),
        is_ipv4_readable(packet.raw + more),
        ipv4_packet(packet.raw + more) == packet,
        (packet.raw + more).skip(be16(packet.raw + more, 2)) == more,
{
    let length: int = packet.raw.len() as int;
    let stream: Seq<u8> = packet.raw + more;
    assert(be16(packet.raw, 2) == length);
    assert(stream.subrange(packet.header.header_length, length) =~= packet.raw.subrange(
        packet.header.header_length,
        length,
    ));
    assert(stream.take(length) =~= packet.raw);
    assert(stream.skip(length) =~= more);
}

/// Law: this buffer and the one for both IP versions judge IPv4 alike: a frame
/// is malformed for both, a fragment for both, or a packet with the same reading
/// for both.
pub proof fn law_buffers_judge_ipv4_alike(stream: Seq<u8>)
    requires
        stream.len() >= 4,
        ip_version(stream) == 4,
    ensures
        is_malformed_frame(stream) == (front_packet(stream) matches Err(
            PacketParseError::Malformed(_),
        )),
        !is_malformed_frame(stream) && is_fragmented_frame(stream) ==> front_packet(stream)
            == Err::<Option<IpPacketView>, PacketParseError>(
            PacketParseError::Unsupported(UnsupportedPacket::Ipv4Fragment),
        ),
        !is_malformed_frame(stream) && is_frame_available(stream) && !is_fragmented_frame(stream)
            ==> front_packet(stream) == Ok::<Option<IpPacketView>, PacketParseError>(
            Some(IpPacketView::Ipv4(ipv4_packet(stream))),
        ),
        !is_malformed_frame(stream) && !is_frame_available(stream) ==> front_packet(stream) == Ok::<
            Option<IpPacketView>,
            PacketParseError,
        >(None),
{
    let header_length: int = ipv4_header_length(stream);
    let total_length: int = be16(stream, 2);
    if IPV4_MIN_HEADER_LENGTH <= header_length <= total_length <= stream.len() {
        let frame: Seq<u8> = stream.take(total_length);
        assert(frame.subrange(header_length, total_length) =~= stream.subrange(
            header_length,
            total_length,
        ));
        assert(frame.take(total_length) =~= frame);
    }
}

impl View for Ipv4PacketBuffer {
    type V = Seq<u8>;

    /// The bytes that wait to be cut into packets.
    closed spec fn view(&self) -> Seq<u8> {
        self.buf@
    }
}

impl Ipv4PacketBuffer {
    /// The waiting bytes fit the buffer, which has room for any packet.
    pub closed spec fn wf(&self) -> bool {
        &&& self.buf.wf()
        &&& self.buf.capacity() == MAX_PACKET_LENGTH
    }

    pub fn new() -> (buffer: Self)
        ensures
            buffer.wf(),
            buffer@ == Seq::<u8>::empty(),
    {
        Ipv4PacketBuffer { buf: ByteBuffer::new(MAX_PACKET_LENGTH) }
    }

    /// How many more bytes fit.
    pub fn remaining(&self) -> (remaining: usize)
        requires
            self.wf(),
        ensures
            remaining == MAX_PACKET_LENGTH - self@.len(),
    {
        self.buf.remaining()
    }

    /// Appends what a source delivered; the result says whether that was
    /// anything at all.
    pub fn read_from(&mut self, received: &[u8]) -> (any: bool)
        requires
            old(self).wf(),
            old(self)@.len() + received@.len() <= MAX_PACKET_LENGTH,
        ensures
            final(self).wf(),
            final(self)@ == old(self)@ + received@,
            any == (received@.len() > 0),
    {
        self.buf.read_from(received)
    }

    /// Checks the frame at the front before anything relies on its contents. A
    /// bad stream is the client's error, never the process's.
    pub fn validate_front(&self) -> (result: Result<(), Error>)
        requires
            self.wf(),
        ensures
            match result {
                Ok(()) => !is_malformed_frame(self@),
                Err(error) => is_malformed_frame(self@) && error == malformed_frame(),
            },
    {
        let bytes: &[u8] = self.buf.peek();
        if bytes.len() < 4 {
            return Ok(());
        }
        let malformed: Error = Error {
            kind: ErrorKind::InvalidData,
            message: "Malformed IP/transport frame",
        };
        let header_length: usize = header_length_of(bytes[0]) as usize;
        let total_length: usize = bytes[2] as usize * 256 + bytes[3] as usize;
        if version_of(bytes[0]) != 4 || header_length < IPV4_MIN_HEADER_LENGTH as usize
            || total_length < header_length {
            return Err(malformed);
        }
        if bytes.len() < total_length {
            return Ok(());
        }
        // Fragments are well-formed but not supported; the caller drops them.
        if self.is_fragmented() {
            return Ok(());
        }
        let protocol: Protocol = protocol_from_number(bytes[9]);
        match check_segment(protocol, &bytes[header_length..total_length]) {
            Some(_) => Err(malformed),
            None => Ok(()),
        }
    }

    /// Whether the packet at the front is a fragment.
    pub fn is_fragmented(&self) -> (fragmented: bool)
        requires
            self.wf(),
            self@.len() >= 20 ==> ip_version(self@) == 4,
        ensures
            fragmented == is_fragmented_frame(self@),
    {
        let bytes: &[u8] = self.buf.peek();
        bytes.len() >= 20 && self.available_packet_length().is_some() && fragment_bits(
            bytes[6],
            bytes[7],
        )
    }

    /// The length of the packet at the front, once all of it is there.
    fn available_packet_length(&self) -> (length: Option<u16>)
        requires
            self.wf(),
            is_ipv4_stream(self@),
        ensures
            match length {
                Some(length) => is_frame_available(self@) && length == be16(self@, 2),
                None => !is_frame_available(self@),
            },
    {
        let data: &[u8] = self.buf.peek();
        match peek_version_length(data) {
            Some((_, length)) => {
                if length as usize <= data.len() {
                    // full packet available
                    Some(length)
                } else {
                    // no full packet available
                    None
                }
            },
            None => None,
        }
    }

    /// The packet at the front, which stays in the buffer; once the packet is
    /// released, the buffer is as it was.
    pub fn as_ipv4_packet(&mut self) -> (packet: Option<Ipv4Packet<'_>>)
        requires
            old(self).wf(),
            is_ipv4_stream(old(self)@),
            is_frame_available(old(self)@) ==> is_ipv4_readable(old(self)@),
        ensures
            match packet {
                Some(packet) => {
                    &&& is_frame_available(old(self)@)
                    &&& packet@ == ipv4_packet(old(self)@)
                    &&& is_ipv4_packet(packet@)
                    &&& has_resolved(packet) ==> final(self).wf() && final(self)@ == old(self)@
                },
                None => {
                    &&& !is_frame_available(old(self)@)
                    &&& final(self).wf()
                    &&& final(self)@ == old(self)@
                },
            },
    {
        if self.available_packet_length().is_some() {
            let data: &mut [u8] = self.buf.peek_mut();
            Some(Ipv4Packet::parse(data))
        } else {
            None
        }
    }

    /// Drops the packet at the front, which has to be all there.
    pub fn next(&mut self)
        requires
            old(self).wf(),
            is_ipv4_stream(old(self)@),
            is_frame_available(old(self)@),
        ensures
            final(self).wf(),
            final(self)@ == old(self)@.skip(be16(old(self)@, 2)),
    {
        match self.available_packet_length() {
            Some(length) => self.buf.consume(length as usize),
            None => (),
        }
    }
}

/// Law: a complete frame of version four that is no fragment is refused exactly
/// when its TCP or UDP segment does not fit; one that carries something else, and
/// one that fits, is not.
pub proof fn law_wellformed_frames_are_accepted(stream: Seq<u8>)
    requires
        stream[0] / 16 == 4,
        20 <= (stream[0] % 16) * 4 <= stream[2] * 256 + stream[3] <= stream.len(),
        (stream[6] * 256 + stream[7]) % 0x4000 == 0,
    ensures
        ({
            let start: int = (stream[0] % 16) * 4;
            let length: int = stream[2] * 256 + stream[3] - start;
            !is_malformed_frame(stream) <==> {
                &&& stream[9] == 6 ==> 20 <= length && 20 <= (stream[start + 12] / 16) * 4
                    <= length
                &&& stream[9] == 17 ==> 8 <= length && stream[start + 4] * 256 + stream[start + 5]
                    == length
            }
        }),
{
}

/// Law: fragments and incomplete frames are accepted on their version and lengths
/// alone, which are looked at as soon as four bytes are there.
pub proof fn law_other_frames_are_judged_by_version_and_lengths(stream: Seq<u8>)
    ensures
        stream.len() < 4 ==> !is_malformed_frame(stream),
        stream.len() >= 4 && !(stream[0] / 16 == 4 && 20 <= (stream[0] % 16) * 4 <= stream[2] * 256
            + stream[3]) ==> is_malformed_frame(stream),
        stream.len() >= 4 && stream[0] / 16 == 4 && 20 <= (stream[0] % 16) * 4 <= stream[2] * 256
            + stream[3] && (stream.len() < stream[2] * 256 + stream[3] || (stream[6] * 256
            + stream[7]) % 0x4000 != 0) ==> !is_malformed_frame(stream),
        malformed_frame() == (Error {
            kind: ErrorKind::InvalidData,
            message: "Malformed IP/transport frame",
        }),
{
}

/// Law: a frame is there once as many bytes are as it announces, and it is known
/// for a fragment by its flags and offset then and not before.
pub proof fn law_frames_are_there_with_their_total_length(stream: Seq<u8>)
    ensures
        is_frame_available(stream) <==> stream.len() >= 4 && stream.len() >= stream[2] * 256
            + stream[3],
        is_fragmented_frame(stream) <==> stream.len() >= 20 && stream.len() >= stream[2] * 256
            + stream[3] && (stream[6] * 256 + stream[7]) % 0x4000 != 0,
        is_ipv4_stream(stream) <==> stream.len() < 4 || stream[0] / 16 == 4,
        MAX_PACKET_LENGTH == 65536,
{
}

} // verus!
