//! Cuts a stream of bytes into packets of either IP version.

use crate::byte_buffer::ByteBuffer;
use crate::ip_packet::{
    front_length, front_packet_length, ip_packet, law_reading_stops_at_the_end, IpPacket,
    IpPacketView, PacketParseError, MAX_IP_PACKET_LENGTH,
};
use vstd::prelude::*;

verus! {

pub struct IpPacketBuffer {
    buf: ByteBuffer,
}

/// What the front of a stream holds: a packet, not yet a whole packet, or
/// something that is not a packet to relay.
pub open spec fn front_packet(stream: Seq<u8>) -> Result<Option<IpPacketView>, PacketParseError> {
    match front_length(stream) {
        Err(error) => Err(error),
        Ok(None) => Ok(None),
        Ok(Some(length)) => match ip_packet(stream.take(length)) {
            Ok(packet) => Ok(Some(packet)),
            Err(error) => Err(error),
        },
    }
}

/// The packets that a stream is cut into, up to the first place where there is
/// no packet to relay.
pub open spec fn packets_of(stream: Seq<u8>) -> Seq<IpPacketView>
    decreases stream.len(),
{
    match front_packet(stream) {
        Ok(Some(packet)) if 0 < packet.raw().len() <= stream.len() => seq![packet] + packets_of(
            stream.skip(packet.raw().len() as int),
        ),
        _ => Seq::empty(),
    }
}

/// The bytes of packets, one after the other.
pub open spec fn stream_of(packets: Seq<IpPacketView>) -> Seq<u8>
    decreases packets.len(),
{
    if packets.len() == 0 {
        Seq::empty()
    } else {
        packets.first().raw() + stream_of(packets.drop_first())
    }
}

/// The packets that the relay carries: those that their own bytes read as.
pub open spec fn is_carried(packet: IpPacketView) -> bool {
    ip_packet(packet.raw()) == Ok::<IpPacketView, PacketParseError>(packet)
}

/// Law: what the front of a stream holds does not depend on the bytes after it:
/// once it is decided, further bytes change nothing.
pub proof fn law_decided_front_stays(stream: Seq<u8>, more: Seq<u8>)
    ensures
        front_length(stream) != Ok::<Option<int>, PacketParseError>(None) ==> {
            &&& front_length(stream + more) == front_length(stream)
            &&& front_packet(stream + more) == front_packet(stream)
        },
{
    if let Ok(Some(length)) = front_length(stream) {
        assert((stream + more).take(length) =~= stream.take(length));
    }
}

/// Law: a packet at the front is never empty, nor longer than the stream or the
/// buffer.
pub proof fn law_front_length_is_bounded(stream: Seq<u8>)
    ensures
        front_length(stream) matches Ok(Some(length)) ==> 0 < length <= stream.len() && length
            <= MAX_IP_PACKET_LENGTH,
{
}

/// Law: a full buffer never waits: its front is a whole packet or a fault.
pub proof fn law_full_buffer_is_decided(stream: Seq<u8>)
    requires
        stream.len() >= MAX_IP_PACKET_LENGTH,
    ensures
        front_length(stream) != Ok::<Option<int>, PacketParseError>(None),
{
}

/// Law: a packet is handed out with exactly the bytes that are then dropped, and
/// reads the same by itself.
pub proof fn law_packet_is_what_is_dropped(stream: Seq<u8>)
    ensures
        front_packet(stream) matches Ok(Some(packet)) ==> {
            &&& front_length(stream) == Ok::<Option<int>, PacketParseError>(
                Some(packet.raw().len() as int),
            )
            &&& packet.raw() == stream.take(packet.raw().len() as int)
            &&& is_carried(packet)
        },
{
    if let Ok(Some(length)) = front_length(stream) {
        let raw: Seq<u8> = stream.take(length);
        assert(raw.take(length) =~= raw);
        law_reading_stops_at_the_end(raw, Seq::empty());
    }
}

/// Law: an unsupported packet can be dropped like any other, so that it does not
/// hold up the packets behind it.
pub proof fn law_unsupported_packet_can_be_dropped(stream: Seq<u8>)
    ensures
        front_packet(stream) matches Err(PacketParseError::Unsupported(_)) ==> front_length(
            stream,
        ) matches Ok(Some(_)),
{
}

/// Law: a packet that has arrived in part is waited for; with its last byte it
/// is there, whatever follows it.
pub proof fn law_packet_arrives_with_its_last_byte(packet: IpPacketView, more: Seq<u8>, part: int)
    requires
        is_carried(packet),
        0 <= part < packet.raw().len(),
    ensures
        front_packet(packet.raw().take(part)) == Ok::<Option<IpPacketView>, PacketParseError>(
            None,
        ),
        front_packet(packet.raw() + more) == Ok::<Option<IpPacketView>, PacketParseError>(
            Some(packet),
        ),
{
    let raw: Seq<u8> = packet.raw();
    lemma_carried_packet_is_whole(packet);
    assert(raw.take(raw.len() as int) =~= raw);
    law_decided_front_stays(raw, more);
    if front_length(raw.take(part)) != Ok::<Option<int>, PacketParseError>(None) {
        law_decided_front_stays(raw.take(part), raw.skip(part));
        assert(raw.take(part) + raw.skip(part) =~= raw);
        law_front_length_is_bounded(raw.take(part));
    }
}

/// The bytes of a carried packet announce their own number.
proof fn lemma_carried_packet_is_whole(packet: IpPacketView)
    requires
        is_carried(packet),
    ensures
        front_length(packet.raw()) == Ok::<Option<int>, PacketParseError>(
            Some(packet.raw().len() as int),
        ),
{
}

/// Law: packets that are sent one after the other come out of the stream one by
/// one, the same and in the same order.
pub proof fn law_packets_come_out_as_sent(packets: Seq<IpPacketView>)
    requires
        forall|i: int| 0 <= i < packets.len() ==> is_carried(#[trigger] packets[i]),
    ensures
        packets_of(stream_of(packets)) == packets,
    decreases packets.len(),
{
    if packets.len() > 0 {
        let packet: IpPacketView = packets.first();
        let rest: Seq<IpPacketView> = packets.drop_first();
        let raw: Seq<u8> = packet.raw();
        assert forall|i: int| 0 <= i < rest.len() implies is_carried(#[trigger] rest[i]) by {
            assert(rest[i] == packets[i + 1]);
        }
        law_packets_come_out_as_sent(rest);
        assert(is_carried(packet));
        lemma_carried_packet_is_whole(packet);
        law_front_length_is_bounded(raw);
        law_packet_arrives_with_its_last_byte(packet, stream_of(rest), 0);
        assert(stream_of(packets).skip(raw.len() as int) =~= stream_of(rest));
        assert(seq![packet] + rest =~= packets);
    } else {
        assert(packets =~= Seq::empty());
    }
}

impl View for IpPacketBuffer {
    type V = Seq<u8>;

    /// The bytes that wait to be cut into packets.
    closed spec fn view(&self) -> Seq<u8> {
        self.buf@
    }
}

impl IpPacketBuffer {
    /// The waiting bytes fit the buffer, which has room for any packet.
    pub closed spec fn wf(&self) -> bool {
        &&& self.buf.wf()
        &&& self.buf.capacity() == MAX_IP_PACKET_LENGTH
    }

    pub fn new() -> (buffer: Self)
        ensures
            buffer.wf(),
            buffer@ == Seq::<u8>::empty(),
    {
        IpPacketBuffer { buf: ByteBuffer::new(MAX_IP_PACKET_LENGTH) }
    }

    /// How many more bytes fit.
    pub fn remaining(&self) -> (remaining: usize)
        requires
            self.wf(),
        ensures
            remaining == MAX_IP_PACKET_LENGTH - self@.len(),
    {
        self.buf.remaining()
    }

    /// Appends what a source delivered; the result says whether that was
    /// anything at all.
    pub fn read_from(&mut self, received: &[u8]) -> (any: bool)
        requires
            old(self).wf(),
            old(self)@.len() + received@.len() <= MAX_IP_PACKET_LENGTH,
        ensures
            final(self).wf(),
            final(self)@ == old(self)@ + received@,
            any == (received@.len() > 0),
    {
        self.buf.read_from(received)
    }

    /// The packet at the front, which stays in the buffer; once the packet is
    /// released, the buffer is as it was.
    pub fn packet(&mut self) -> (result: Result<Option<IpPacket<'_>>, PacketParseError>)
        requires
            old(self).wf(),
        ensures
            match result {
                Ok(Some(packet)) => {
                    &&& front_packet(old(self)@) == Ok::<Option<IpPacketView>, PacketParseError>(
                        Some(packet@),
                    )
                    &&& packet@.is_packet()
                    &&& has_resolved(packet) ==> final(self).wf() && final(self)@ == old(self)@
                },
                Ok(None) => {
                    &&& front_packet(old(self)@) == Ok::<Option<IpPacketView>, PacketParseError>(
                        None,
                    )
                    &&& final(self).wf()
                    &&& final(self)@ == old(self)@
                },
                Err(error) => {
                    &&& front_packet(old(self)@) == Err::<Option<IpPacketView>, PacketParseError>(
                        error,
                    )
                    &&& final(self).wf()
                    &&& final(self)@ == old(self)@
                },
            },
    {
        let ghost stream: Seq<u8> = self@;
        let length: usize = match front_packet_length(self.buf.peek()) {
            Ok(Some(length)) => length,
            Ok(None) => return Ok(None),
            Err(error) => return Err(error),
        };
        let bytes: &mut [u8] = self.buf.peek_mut();
        let (raw, rest) = bytes.split_at_mut(length);
        assert(raw@ + rest@ =~= stream);
        assert(raw@ =~= stream.take(length as int));
        assert(has_resolved(rest));
        match IpPacket::parse(raw) {
            Ok(packet) => Ok(Some(packet)),
            Err(error) => Err(error),
        }
    }

    /// Drops the packet at the front; the result says whether one was there.
    pub fn next(&mut self) -> (result: Result<bool, PacketParseError>)
        requires
            old(self).wf(),
        ensures
            final(self).wf(),
            match result {
                Ok(true) => {
                    &&& front_length(old(self)@) matches Ok(Some(_))
                    &&& final(self)@ == old(self)@.skip(front_length(old(self)@)->Ok_0.unwrap())
                },
                Ok(false) => {
                    &&& front_length(old(self)@) == Ok::<Option<int>, PacketParseError>(None)
                    &&& final(self)@ == old(self)@
                },
                Err(error) => {
                    &&& front_length(old(self)@) == Err::<Option<int>, PacketParseError>(error)
                    &&& final(self)@ == old(self)@
                },
            },
    {
        let length: usize = match front_packet_length(self.buf.peek()) {
            Ok(Some(length)) => length,
            Ok(None) => return Ok(false),
            Err(error) => return Err(error),
        };
        self.buf.consume(length);
        Ok(true)
    }
}

/// Law: a whole packet, carried or not, goes from the front of a stream alone:
/// what is dropped is exactly its bytes, and what follows it stays.
pub proof fn law_dropping_a_packet_leaves_what_follows(packet: Seq<u8>, more: Seq<u8>)
    requires
        ({
            ||| {
                &&& packet.len() >= 40
                &&& packet[0] / 16 == 6
                &&& packet.len() == 40 + packet[4] * 256 + packet[5]
            }
            ||| {
                &&& packet[0] / 16 == 4
                &&& 20 <= (packet[0] % 16) * 4 <= packet.len()
                &&& packet.len() == packet[2] * 256 + packet[3]
            }
        }),
    ensures
        front_length(packet + more) == Ok::<Option<int>, PacketParseError>(
            Some(packet.len() as int),
        ),
        (packet + more).skip(packet.len() as int) == more,
{
    assert((packet + more).skip(packet.len() as int) =~= more);
}

/// Law: what the front of a stream holds is what its bytes by themselves read as:
/// the same packet, or the same refusal, as soon as all of them are there.
pub proof fn law_front_reads_as_its_own_bytes(packet: Seq<u8>, more: Seq<u8>)
    requires
        ({
            ||| {
                &&& packet.len() >= 40
                &&& packet[0] / 16 == 6
                &&& packet.len() == 40 + packet[4] * 256 + packet[5]
            }
            ||| {
                &&& packet[0] / 16 == 4
                &&& 20 <= (packet[0] % 16) * 4 <= packet.len()
                &&& packet.len() == packet[2] * 256 + packet[3]
            }
        }),
    ensures
        match ip_packet(packet) {
            Ok(read) => read.raw() == packet && front_packet(packet + more) == Ok::<
                Option<IpPacketView>,
                PacketParseError,
            >(Some(read)),
            Err(error) => front_packet(packet + more) == Err::<
                Option<IpPacketView>,
                PacketParseError,
            >(error),
        },
{
    assert((packet + more).take(packet.len() as int) =~= packet);
    assert(packet.take(packet.len() as int) =~= packet);
}

/// Law: as long as the length of the front is open there is no packet, and a
/// stream that cannot be cut is refused for the same reason by both readings.
pub proof fn law_undecided_front_is_no_packet(stream: Seq<u8>)
    ensures
        front_length(stream) == Ok::<Option<int>, PacketParseError>(None) <==> front_packet(stream)
            == Ok::<Option<IpPacketView>, PacketParseError>(None),
        front_length(stream) matches Err(error) ==> front_packet(stream) == Err::<
            Option<IpPacketView>,
            PacketParseError,
        >(error),
{
}

/// Law: the buffer has room for the longest header and payload together.
pub proof fn law_room_for_the_longest_packet()
    ensures
        MAX_IP_PACKET_LENGTH == 40 + 65535,
{
}

} // verus!
