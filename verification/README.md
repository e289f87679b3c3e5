# relay

The packet logic of a reverse-tethering relay: a client sends its IP packets
through a tunnel, and the relay speaks to the network on the client's behalf.

`src/` is the library, verified with Verus:

- `ip_packet_buffer`, `ipv4_packet_buffer` cut the byte stream of the tunnel into
  packets, over `byte_buffer`;
- `ip_packet`, `ipv4_packet`, `ipv6_packet` and the header modules read packets;
- `ipv6_packetizer` wraps what the network answers into IPv6 packets, with the
  checksum of `checksum`;
- `connection` names flows and rewrites their destinations;
- `ipv6_connection` decides what becomes of an IPv6 flow;
- `root_listener` decides whether an inherited listener is taken over.

The contracts speak of byte sequences. Functions whose names begin with `law_`
state what holds of the library as a whole: that packets come out of a stream as
they were sent, that a synthesized packet reads back and passes the receiver's
checksum test, that a flow's socket is deregistered at most once.

The byte order functions of the crate `byteorder` and the number parser of the
standard library are used on trust; `bytes` and `root_listener` say what is
believed of them.

`app/` holds what touches sockets, clocks and the environment. `tests/` runs the
library on concrete packets.
