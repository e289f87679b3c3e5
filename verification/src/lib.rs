//! Packet framing, parsing and synthesis for a reverse-tethering relay.
//!
//! Every module states its behaviour over byte sequences; sockets, clocks and
//! the event loop live outside this library.

pub mod byte_buffer;
pub mod bytes;
pub mod checksum;
pub mod connection;
pub mod error;
pub mod ip_packet;
pub mod ip_packet_buffer;
pub mod ipv4_header;
pub mod ipv4_packet;
pub mod ipv4_packet_buffer;
pub mod ipv6_connection;
pub mod ipv6_header;
pub mod ipv6_packet;
pub mod ipv6_packetizer;
pub mod net;
pub mod root_listener;
pub mod tcp_header;
pub mod transport_header;
pub mod udp_header;
