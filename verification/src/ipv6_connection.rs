//! One IPv6 flow between the client and a socket of the host.
//!
//! The flow decides; sockets are opened, read, written and closed by its owner,
//! which reports back what came of it. Times are nanoseconds of a clock that
//! never runs backwards.

use crate::checksum::receiver_sum;
use crate::connection::{rewritten, ConnectionId, DnsRedirect, Flow};
use crate::error::{Error, ErrorKind};
use crate::ip_packet::{IpPacket, IpPacketView};
use crate::ipv4_header::Protocol;
use crate::ipv4_packet::Ipv4PacketView;
use crate::ipv6_header::IPV6_HEADER_LENGTH;
use crate::ipv6_packet::{ipv6_packet, is_ipv6_packet, Ipv6PacketView};
use crate::ipv6_packetizer::{
    law_packet_reads_back, law_receiver_accepts_packet, Ipv6Packetizer, PacketizerView,
};
use crate::net::{Endpoint, SocketAddr, SocketAddrV6};
use vstd::prelude::*;

verus! {

/// A flow that was idle for longer than this may be dropped.
pub const IDLE_TIMEOUT_SECONDS: u64 = 120;

pub const NANOSECONDS_PER_SECOND: u64 = 1_000_000_000;

/// The kind of socket that the host holds for a flow.
#[derive(Clone, Copy, Debug, PartialEq, Eq, Structural)]
pub enum Socket {
    Tcp,
    Udp,
}

/// The socket that the host has to open for a flow.
#[derive(Clone, Copy, Debug, PartialEq, Eq)]
pub enum SocketRequest {
    /// A stream to `destination`.
    Tcp { destination: SocketAddr },
    /// A datagram socket at `bind` that only talks to `destination`.
    Udp { bind: SocketAddr, destination: SocketAddr },
}

/// What came of reading from the socket.
#[derive(Clone, Copy, Debug)]
pub enum ReadOutcome<'a> {
    Received(&'a [u8]),
    WouldBlock,
    Failed,
}

/// The mathematical reading of a [`ReadOutcome`].
#[verifier::ext_equal]
pub enum ReadOutcomeView {
    Received(Seq<u8>),
    WouldBlock,
    Failed,
}

/// What came of writing to the socket.
#[derive(Clone, Copy, Debug, PartialEq, Eq)]
pub enum WriteOutcome {
    Written,
    WouldBlock,
    Failed,
}

/// What the owner of a flow has to do next.
#[derive(Debug)]
pub struct Reaction {
    /// A packet to send to the client.
    pub to_client: Option<Vec<u8>>,
    /// The socket is no longer to be watched.
    pub deregister: bool,
    /// The router is to forget the flow.
    pub remove_from_router: bool,
}

/// Bidirectional IPv6 flow.
///
/// Outbound payloads go straight to the socket; inbound bytes are turned back
/// into well-formed IPv6 packets by [`Ipv6Packetizer`] for the client.
pub struct Ipv6Connection {
    id: ConnectionId,
    socket: Socket,
    network_to_client: Ipv6Packetizer,
    closed: bool,
    idle_since: u64,
}

/// The mathematical reading of an [`Ipv6Connection`].
#[verifier::ext_equal]
pub struct FlowState {
    pub id: Flow,
    pub socket: Socket,
    pub packetizer: PacketizerView,
    pub closed: bool,
    pub idle_since: int,
}

/// The mathematical reading of a [`Reaction`].
#[verifier::ext_equal]
pub struct ReactionView {
    pub to_client: Option<Seq<u8>>,
    pub deregister: bool,
    pub remove_from_router: bool,
}

/// The mathematical reading of a [`SocketRequest`].
#[verifier::ext_equal]
pub enum SocketRequestView {
    Tcp { destination: Endpoint },
    Udp { bind: Endpoint, destination: Endpoint },
}

/// Any local IPv6 address and any port.
pub open spec fn any_local_endpoint() -> Endpoint {
    Endpoint::V6 { octets: seq![0u8, 0, 0, 0, 0, 0, 0, 0, 0, 0, 0, 0, 0, 0, 0, 0], port: 0 }
}

/// The socket that a flow needs, if its protocol has one.
pub open spec fn request_for(id: Flow, dns: DnsRedirect) -> Option<SocketRequestView> {
    let destination = rewritten(id.destination, dns);
    match id.protocol {
        Protocol::Tcp => Some(SocketRequestView::Tcp { destination }),
        Protocol::Udp => Some(
            SocketRequestView::Udp { bind: any_local_endpoint(), destination },
        ),
        Protocol::Other => None,
    }
}

/// Nothing to do.
pub open spec fn no_reaction() -> ReactionView {
    ReactionView { to_client: None, deregister: false, remove_from_router: false }
}

/// What can happen to a flow.
#[verifier::ext_equal]
pub enum FlowEvent {
    /// The socket was reported readable, and was read.
    Ready { outcome: ReadOutcomeView, now: int },
    /// The client sent a packet.
    Sent { packet: IpPacketView, now: int },
    /// The socket was written to.
    Written(WriteOutcome),
    /// The owner closed the flow.
    Closed,
}

impl FlowState {
    /// The flow after an event.
    pub open spec fn after(self, event: FlowEvent) -> FlowState {
        match event {
            FlowEvent::Ready { outcome, now } => self.after_ready(outcome, now),
            FlowEvent::Sent { packet, now } => self.after_send(packet, now),
            FlowEvent::Written(outcome) => self.after_write(outcome),
            FlowEvent::Closed => self.after_close(),
        }
    }

    /// The event leads to the socket being deregistered.
    pub open spec fn deregisters(self, event: FlowEvent) -> bool {
        match event {
            FlowEvent::Ready { outcome, .. } => self.ready_reaction(outcome).deregister,
            FlowEvent::Closed => !self.closed,
            _ => false,
        }
    }

    /// How often the socket is deregistered over a history of events.
    pub open spec fn deregistrations(self, events: Seq<FlowEvent>) -> int
        decreases events.len(),
    {
        if events.len() == 0 {
            0
        } else {
            let now: int = if self.deregisters(events.first()) {
                1
            } else {
                0
            };
            now + self.after(events.first()).deregistrations(events.drop_first())
        }
    }

    /// The flow after it was closed.
    pub open spec fn after_close(self) -> FlowState {
        FlowState { closed: true, ..self }
    }

    /// These bytes from the socket are the end of its stream.
    pub open spec fn is_end(self, received: Seq<u8>) -> bool {
        self.socket is Tcp && received.len() == 0
    }

    /// The flow after its socket was reported readable.
    pub open spec fn after_ready(self, outcome: ReadOutcomeView, now: int) -> FlowState {
        if self.closed {
            self
        } else {
            match outcome {
                ReadOutcomeView::Received(received) => if self.is_end(received) {
                    self.after_close()
                } else {
                    FlowState { idle_since: now, ..self }
                },
                ReadOutcomeView::WouldBlock => self,
                ReadOutcomeView::Failed => self.after_close(),
            }
        }
    }

    /// What is to be done after the socket was reported readable: what was
    /// received goes to the client as one packet, and at its end or on an error
    /// the flow goes away. A spurious event is ignored.
    pub open spec fn ready_reaction(self, outcome: ReadOutcomeView) -> ReactionView {
        let gone = ReactionView { to_client: None, deregister: true, remove_from_router: true };
        if self.closed {
            no_reaction()
        } else {
            match outcome {
                ReadOutcomeView::Received(received) => if self.is_end(received) {
                    gone
                } else {
                    ReactionView {
                        to_client: Some(self.packetizer.packet(received)),
                        ..no_reaction()
                    }
                },
                ReadOutcomeView::WouldBlock => no_reaction(),
                ReadOutcomeView::Failed => gone,
            }
        }
    }

    /// The flow after the client sent a packet.
    pub open spec fn after_send(self, packet: IpPacketView, now: int) -> FlowState {
        match packet {
            IpPacketView::Ipv6(_) => FlowState { idle_since: now, ..self },
            IpPacketView::Ipv4(_) => self,
        }
    }

    /// The flow after a write to its socket.
    pub open spec fn after_write(self, outcome: WriteOutcome) -> FlowState {
        match outcome {
            WriteOutcome::Failed => self.after_close(),
            _ => self,
        }
    }

    /// The flow was idle for longer than flows may be, in whole seconds.
    pub open spec fn is_expired(self, now: int) -> bool {
        now >= self.idle_since && (now - self.idle_since) / NANOSECONDS_PER_SECOND as int
            > IDLE_TIMEOUT_SECONDS
    }
}

/// The bytes of a client's packet that go to the socket: the payload of an IPv6
/// packet, unless it is empty.
pub open spec fn outbound(packet: IpPacketView) -> Option<Seq<u8>> {
    match packet {
        IpPacketView::Ipv6(packet) => {
            let payload = packet.raw.skip(IPV6_HEADER_LENGTH + packet.transport.header_length);
            if payload.len() == 0 {
                None
            } else {
                Some(payload)
            }
        },
        IpPacketView::Ipv4(_) => None,
    }
}

/// Law: a closed flow stays closed, whatever happens to it.
pub proof fn law_closed_flow_stays_closed(flow: FlowState, event: FlowEvent)
    requires
        flow.closed,
    ensures
        flow.after(event).closed,
{
}

/// Law: an event on the socket of a closed flow changes nothing and asks for
/// nothing.
pub proof fn law_closed_flow_is_silent(flow: FlowState, outcome: ReadOutcomeView, now: int)
    requires
        flow.closed,
    ensures
        flow.after_ready(outcome, now) == flow,
        flow.ready_reaction(outcome) == no_reaction(),
{
}

/// Law: over any history the socket of a flow is deregistered at most once, and
/// not at all once the flow is closed.
pub proof fn law_socket_is_deregistered_at_most_once(flow: FlowState, events: Seq<FlowEvent>)
    ensures
        0 <= flow.deregistrations(events) <= 1,
        flow.closed ==> flow.deregistrations(events) == 0,
    decreases events.len(),
{
    if events.len() > 0 {
        law_socket_is_deregistered_at_most_once(
            flow.after(events.first()),
            events.drop_first(),
        );
    }
}

/// Law: the flow is forgotten and its socket no longer watched exactly when an
/// event on the socket closes it.
pub proof fn law_closing_event_cleans_up(flow: FlowState, outcome: ReadOutcomeView, now: int)
    requires
        !flow.closed,
    ensures
        flow.ready_reaction(outcome).deregister == flow.after_ready(outcome, now).closed,
        flow.ready_reaction(outcome).remove_from_router == flow.after_ready(outcome, now).closed,
        flow.after_ready(outcome, now).closed ==> flow.ready_reaction(outcome).to_client is None,
{
}

/// Law: what goes to the client is a well-formed IPv6 packet that carries exactly
/// the bytes from the socket and that the client's checksum test accepts.
pub proof fn law_client_gets_sound_packets(flow: FlowState, received: Seq<u8>)
    requires
        flow.packetizer.ready(),
        received.len() <= flow.packetizer.room(),
    ensures
        flow.ready_reaction(ReadOutcomeView::Received(received)).to_client matches Some(raw)
            ==> ipv6_packet(raw) matches Ok(read) && {
            &&& read.raw == raw
            &&& outbound(IpPacketView::Ipv6(read)) == if received.len() == 0 {
                None::<Seq<u8>>
            } else {
                Some(received)
            }
            &&& receiver_sum(
                raw.subrange(8, 24),
                raw.subrange(24, 40),
                raw[6],
                raw.skip(IPV6_HEADER_LENGTH as int),
            ) == 0xffff
        },
{
    law_packet_reads_back(flow.packetizer, received);
    law_receiver_accepts_packet(flow.packetizer, received);
}

/// Law: traffic in either direction keeps a flow: it does not expire within the
/// time limit after a packet went to the client or came from it.
pub proof fn law_traffic_keeps_a_flow(
    flow: FlowState,
    outcome: ReadOutcomeView,
    packet: IpPacketView,
    now: int,
    later: int,
)
    requires
        later - now <= IDLE_TIMEOUT_SECONDS * NANOSECONDS_PER_SECOND,
    ensures
        flow.ready_reaction(outcome).to_client is Some ==> !flow.after_ready(
            outcome,
            now,
        ).is_expired(later),
        packet is Ipv6 ==> !flow.after_send(packet, now).is_expired(later),
{
}

impl View for ReadOutcome<'_> {
    type V = ReadOutcomeView;

    open spec fn view(&self) -> ReadOutcomeView {
        match *self {
            ReadOutcome::Received(received) => ReadOutcomeView::Received(received@),
            ReadOutcome::WouldBlock => ReadOutcomeView::WouldBlock,
            ReadOutcome::Failed => ReadOutcomeView::Failed,
        }
    }
}

impl View for SocketRequest {
    type V = SocketRequestView;

    open spec fn view(&self) -> SocketRequestView {
        match *self {
            SocketRequest::Tcp { destination } => SocketRequestView::Tcp {
                destination: destination@,
            },
            SocketRequest::Udp { bind, destination } => SocketRequestView::Udp {
                bind: bind@,
                destination: destination@,
            },
        }
    }
}

impl View for Reaction {
    type V = ReactionView;

    open spec fn view(&self) -> ReactionView {
        ReactionView {
            to_client: match self.to_client {
                Some(packet) => Some(packet@),
                None => None,
            },
            deregister: self.deregister,
            remove_from_router: self.remove_from_router,
        }
    }
}

impl View for Ipv6Connection {
    type V = FlowState;

    closed spec fn view(&self) -> FlowState {
        FlowState {
            id: self.id@,
            socket: self.socket,
            packetizer: self.network_to_client@,
            closed: self.closed,
            idle_since: self.idle_since as int,
        }
    }
}

impl Ipv6Connection {
    pub closed spec fn wf(&self) -> bool {
        self.network_to_client.wf()
    }

    /// A new flow, and the socket that has to be opened for it.
    pub fn create(
        id: ConnectionId,
        packetizer: Ipv6Packetizer,
        dns: &DnsRedirect,
        now: u64,
    ) -> (result: Result<(Self, SocketRequest), Error>)
        requires
            packetizer.wf(),
        ensures
            match result {
                Ok((flow, request)) => {
                    &&& request_for(id@, *dns) == Some(request@)
                    &&& flow.wf()
                    &&& flow@ == (FlowState {
                        id: id@,
                        socket: if id@.protocol is Tcp {
                            Socket::Tcp
                        } else {
                            Socket::Udp
                        },
                        packetizer: packetizer@,
                        closed: false,
                        idle_since: now as int,
                    })
                },
                Err(error) => {
                    &&& request_for(id@, *dns) is None
                    &&& error == (Error {
                        kind: ErrorKind::InvalidInput,
                        message: "unsupported protocol",
                    })
                },
            },
    {
        let destination: SocketAddr = id.rewritten_destination(dns);
        let (socket, request) = match id.protocol() {
            Protocol::Tcp => (Socket::Tcp, SocketRequest::Tcp { destination }),
            Protocol::Udp => {
                let unspecified: SocketAddrV6 = SocketAddrV6 { ip: [0u8;16], port: 0 };
                assert(unspecified@ =~= any_local_endpoint());
                (Socket::Udp, SocketRequest::Udp { bind: SocketAddr::V6(unspecified), destination })
            },
            Protocol::Other => {
                return Err(
                    Error { kind: ErrorKind::InvalidInput, message: "unsupported protocol" },
                );
            },
        };
        let flow = Ipv6Connection {
            id,
            socket,
            network_to_client: packetizer,
            closed: false,
            idle_since: now,
        };
        Ok((flow, request))
    }

    pub fn id(&self) -> (id: &ConnectionId)
        ensures
            id@ == self@.id,
    {
        &self.id
    }

    pub fn socket(&self) -> (socket: Socket)
        ensures
            socket == self@.socket,
    {
        self.socket
    }

    /// Whether an event of the socket calls for a read.
    pub fn wants_read(&self, readable: bool) -> (wanted: bool)
        ensures
            wanted == (readable && !self@.closed),
    {
        !self.closed && readable
    }

    /// How many bytes may be read at once.
    pub fn read_limit(&self) -> (limit: usize)
        requires
            self.wf(),
        ensures
            limit == self@.packetizer.room(),
    {
        self.network_to_client.read_limit(None)
    }

    /// Handles what came of reading from a readable socket.
    pub fn on_ready(&mut self, outcome: ReadOutcome<'_>, now: u64) -> (reaction: Reaction)
        requires
            old(self).wf(),
            old(self)@.packetizer.ready(),
            outcome matches ReadOutcome::Received(received) ==> received@.len()
                <= old(self)@.packetizer.room(),
        ensures
            final(self).wf(),
            final(self)@ == old(self)@.after_ready(outcome@, now as int),
            reaction@ == old(self)@.ready_reaction(outcome@),
    {
        if self.closed {
            return Reaction { to_client: None, deregister: false, remove_from_router: false };
        }
        let (to_client, deregister) = self.process_receive(outcome, now);
        Reaction { to_client, deregister, remove_from_router: self.closed }
    }

    /// Takes in what came of a read of an open flow: the packet for the client,
    /// and whether the socket is to be deregistered.
    fn process_receive(
        &mut self,
        outcome: ReadOutcome<'_>,
        now: u64,
    ) -> (result: (Option<Vec<u8>>, bool))
        requires
            old(self).wf(),
            !old(self)@.closed,
            old(self)@.packetizer.ready(),
            outcome matches ReadOutcome::Received(received) ==> received@.len()
                <= old(self)@.packetizer.room(),
        ensures
            final(self).wf(),
            final(self)@ == old(self)@.after_ready(outcome@, now as int),
            result.1 == old(self)@.ready_reaction(outcome@).deregister,
            match result.0 {
                Some(packet) => old(self)@.ready_reaction(outcome@).to_client == Some(packet@),
                None => old(self)@.ready_reaction(outcome@).to_client is None,
            },
    {
        match outcome {
            ReadOutcome::Received(received) => {
                let to_client: Option<Vec<u8>> = self.read(received, now);
                match to_client {
                    Some(packet) => (Some(packet), false),
                    None => {
                        // End of a TCP stream: nothing left to relay.
                        let deregister: bool = self.close();
                        (None, deregister)
                    },
                }
            },
            ReadOutcome::WouldBlock => (None, false),
            ReadOutcome::Failed => {
                let deregister: bool = self.close();
                (None, deregister)
            },
        }
    }

    /// The packet for bytes from the socket, unless they are the end of its
    /// stream.
    fn read(&mut self, received: &[u8], now: u64) -> (packet: Option<Vec<u8>>)
        requires
            old(self).wf(),
            old(self)@.packetizer.ready(),
            received@.len() <= old(self)@.packetizer.room(),
        ensures
            final(self).wf(),
            match packet {
                Some(packet) => {
                    &&& !old(self)@.is_end(received@)
                    &&& packet@ == old(self)@.packetizer.packet(received@)
                    &&& final(self)@ == (FlowState { idle_since: now as int, ..old(self)@ })
                },
                None => old(self)@.is_end(received@) && final(self)@ == old(self)@,
            },
    {
        let packet: Vec<u8> = match self.socket {
            Socket::Tcp => {
                match self.network_to_client.packetize_read(received) {
                    Some(packet) => vstd::slice::slice_to_vec(packet.raw()),
                    None => return None,
                }
            },
            Socket::Udp => {
                let packet = self.network_to_client.packetize(received);
                vstd::slice::slice_to_vec(packet.raw())
            },
        };
        self.idle_since = now;
        Some(packet)
    }

    /// Takes a packet of the client; the result is what to write to the socket,
    /// if anything.
    pub fn send_to_network<'p>(&mut self, packet: &'p IpPacket<'_>, now: u64) -> (payload: Option<
        &'p [u8],
    >)
        requires
            old(self).wf(),
            packet@.is_packet(),
        ensures
            final(self).wf(),
            final(self)@ == old(self)@.after_send(packet@, now as int),
            match payload {
                Some(payload) => outbound(packet@) == Some(payload@),
                None => outbound(packet@) is None,
            },
    {
        match packet {
            IpPacket::Ipv6(packet) => {
                self.idle_since = now;
                match packet.payload() {
                    Some(payload) => if payload.is_empty() {
                        None
                    } else {
                        Some(payload)
                    },
                    None => None,
                }
            },
            IpPacket::Ipv4(_) => None,
        }
    }

    /// Handles what came of writing to the socket.
    pub fn on_write(&mut self, outcome: WriteOutcome)
        requires
            old(self).wf(),
        ensures
            final(self).wf(),
            final(self)@ == old(self)@.after_write(outcome),
    {
        match outcome {
            WriteOutcome::Failed => {
                self.closed = true;
            },
            _ => (),
        }
    }

    /// Closes the flow; the result says whether its socket is to be deregistered,
    /// which it is the first time only.
    pub fn close(&mut self) -> (deregister: bool)
        requires
            old(self).wf(),
        ensures
            final(self).wf(),
            final(self)@ == old(self)@.after_close(),
            deregister == !old(self)@.closed,
    {
        if self.closed {
            return false;
        }
        self.closed = true;
        true
    }

    pub fn is_expired(&self, now: u64) -> (expired: bool)
        ensures
            expired == self@.is_expired(now as int),
    {
        now >= self.idle_since && (now - self.idle_since) / NANOSECONDS_PER_SECOND
            > IDLE_TIMEOUT_SECONDS
    }

    pub fn is_closed(&self) -> (closed: bool)
        ensures
            closed == self@.closed,
    {
        self.closed
    }
}

/// Law: whatever an open flow receives, but for the end of a TCP stream, reaches
/// the client: there is a packet, it is longer than the headers by just what was
/// received and ends with it, and the flow stays open, watched and routed, with
/// its idle time starting over.
pub proof fn law_received_bytes_reach_the_client(flow: FlowState, received: Seq<u8>, now: int)
    requires
        !flow.closed,
        flow.packetizer.ready(),
        received.len() <= flow.packetizer.room(),
        received.len() > 0 || flow.socket == Socket::Udp,
    ensures
        ({
            let reaction: ReactionView = flow.ready_reaction(ReadOutcomeView::Received(received));
            let after: FlowState = flow.after_ready(ReadOutcomeView::Received(received), now);
            &&& reaction.to_client matches Some(packet) && {
                &&& packet.len() == 40 + flow.packetizer.fields.header_length + received.len()
                &&& packet.skip(40 + flow.packetizer.fields.header_length) == received
            }
            &&& !reaction.deregister
            &&& !reaction.remove_from_router
            &&& !after.closed
            &&& after.idle_since == now
            &&& after.id == flow.id
            &&& after.socket == flow.socket
            &&& after.packetizer == flow.packetizer
        }),
{
    law_packet_reads_back(flow.packetizer, received);
}

/// Law: two different receipts never look the same to the client.
pub proof fn law_receipts_are_told_apart(flow: FlowState, first: Seq<u8>, second: Seq<u8>)
    requires
        !flow.closed,
        flow.packetizer.ready(),
        first.len() <= flow.packetizer.room(),
        second.len() <= flow.packetizer.room(),
        flow.ready_reaction(ReadOutcomeView::Received(first)) == flow.ready_reaction(
            ReadOutcomeView::Received(second),
        ),
    ensures
        first == second,
{
    if first.len() > 0 || flow.socket == Socket::Udp {
        law_received_bytes_reach_the_client(flow, first, 0);
    }
    if second.len() > 0 || flow.socket == Socket::Udp {
        law_received_bytes_reach_the_client(flow, second, 0);
    }
    assert(first.len() == 0 ==> first =~= Seq::<u8>::empty());
    assert(second.len() == 0 ==> second =~= Seq::<u8>::empty());
}

/// Law: an open flow goes away at the end of its TCP stream and when its socket
/// fails, once and for good: nothing goes to the client, the socket is no longer
/// watched and the router forgets the flow.
pub proof fn law_ended_flow_goes_away(flow: FlowState, now: int)
    requires
        !flow.closed,
    ensures
        flow.after_ready(ReadOutcomeView::Failed, now) == (FlowState { closed: true, ..flow }),
        flow.ready_reaction(ReadOutcomeView::Failed) == (ReactionView {
            to_client: None,
            deregister: true,
            remove_from_router: true,
        }),
        flow.socket == Socket::Tcp ==> {
            let end: ReadOutcomeView = ReadOutcomeView::Received(Seq::empty());
            &&& flow.after_ready(end, now) == flow.after_ready(ReadOutcomeView::Failed, now)
            &&& flow.ready_reaction(end) == flow.ready_reaction(ReadOutcomeView::Failed)
        },
{
}

/// Law: a read that would block leaves any flow as it was and asks for nothing,
/// and so does any event on a closed flow.
pub proof fn law_spurious_events_do_nothing(flow: FlowState, outcome: ReadOutcomeView, now: int)
    requires
        outcome is WouldBlock || flow.closed,
    ensures
        flow.after_ready(outcome, now) == flow,
        flow.ready_reaction(outcome) == (ReactionView {
            to_client: None,
            deregister: false,
            remove_from_router: false,
        }),
{
}

/// Law: of every IPv6 packet of the client, just the bytes behind its transport
/// header go to the socket, if there are any; the packet restarts the flow's idle
/// time and changes nothing else.
pub proof fn law_payload_of_the_client_goes_out(
    flow: FlowState,
    packet: Ipv6PacketView,
    now: int,
)
    requires
        is_ipv6_packet(packet),
    ensures
        ({
            let start: int = if packet.raw[6] == 6 {
                40 + (packet.raw[52] / 16) * 4
            } else {
                48
            };
            outbound(IpPacketView::Ipv6(packet)) == if packet.raw.len() == start {
                None::<Seq<u8>>
            } else {
                Some(packet.raw.subrange(start, packet.raw.len() as int))
            }
        }),
        flow.after_send(IpPacketView::Ipv6(packet), now) == (FlowState {
            idle_since: now,
            ..flow
        }),
{
    let raw: Seq<u8> = packet.raw;
    let segment: Seq<u8> = raw.subrange(40, 40 + packet.header.payload_length);
    assert(raw.take(40 + packet.header.payload_length) =~= raw);
    if raw[6] == 6 {
        assert(segment[12] == raw[52]);
    }
    let start: int = 40 + packet.transport.header_length;
    assert(raw.skip(start) =~= raw.subrange(start, raw.len() as int));
}

/// Law: an IPv4 packet is none of the flow's business.
pub proof fn law_ipv4_packets_are_ignored(flow: FlowState, packet: Ipv4PacketView, now: int)
    ensures
        outbound(IpPacketView::Ipv4(packet)) is None,
        flow.after_send(IpPacketView::Ipv4(packet), now) == flow,
{
}

/// Law: a write closes a flow exactly when it fails for good, and closing does
/// nothing else to it.
pub proof fn law_failed_writes_close_the_flow(flow: FlowState)
    ensures
        flow.after_write(WriteOutcome::Failed) == (FlowState { closed: true, ..flow }),
        flow.after_close() == (FlowState { closed: true, ..flow }),
        flow.after_write(WriteOutcome::Written) == flow,
        flow.after_write(WriteOutcome::WouldBlock) == flow,
{
}

/// Law: a flow expires once it was idle for 121 whole seconds, neither sooner nor
/// later, and whether it is closed does not matter.
pub proof fn law_idle_flow_expires_after_two_minutes(flow: FlowState, now: int)
    ensures
        flow.is_expired(now) <==> now - flow.idle_since >= 121_000_000_000,
{
}

/// Law: a flow is given a socket by its protocol, a stream for TCP and for UDP a
/// datagram socket on any local address and port, towards the destination that
/// the flow's own is rewritten to; there is none for other protocols.
pub proof fn law_sockets_of_flows(id: Flow, dns: DnsRedirect)
    ensures
        id.protocol is Tcp ==> request_for(id, dns) == Some(
            SocketRequestView::Tcp { destination: rewritten(id.destination, dns) },
        ),
        id.protocol is Udp ==> (request_for(id, dns) matches Some(
            SocketRequestView::Udp { bind, destination },
        ) && {
            &&& destination == rewritten(id.destination, dns)
            &&& bind == (Endpoint::V6 { octets: Seq::new(16, |i: int| 0u8), port: 0 })
        }),
        id.protocol is Other ==> request_for(id, dns) is None,
{
    assert(any_local_endpoint() =~= (Endpoint::V6 {
        octets: Seq::new(16, |i: int| 0u8),
        port: 0,
    })) by {
        assert(any_local_endpoint()->octets =~= Seq::new(16, |i: int| 0u8));
    }
}

/// Law: what came of a read and what a flow asks for are read as they are.
pub proof fn law_outcomes_and_requests_read_as_they_are(
    outcome: ReadOutcome,
    reaction: Reaction,
    request: SocketRequest,
)
    ensures
        outcome@ == match outcome {
            ReadOutcome::Received(received) => ReadOutcomeView::Received(received@),
            ReadOutcome::WouldBlock => ReadOutcomeView::WouldBlock,
            ReadOutcome::Failed => ReadOutcomeView::Failed,
        },
        reaction@.to_client is Some <==> reaction.to_client is Some,
        reaction.to_client matches Some(packet) ==> reaction@.to_client == Some(packet@),
        reaction@.deregister == reaction.deregister,
        reaction@.remove_from_router == reaction.remove_from_router,
        request@ == match request {
            SocketRequest::Tcp { destination } => SocketRequestView::Tcp {
                destination: destination@,
            },
            SocketRequest::Udp { bind, destination } => SocketRequestView::Udp {
                bind: bind@,
                destination: destination@,
            },
        },
{
}

} // verus!
