# tcp_tun

A minimal TCP endpoint that runs on a Linux TUN device and answers the
passive half of the three-way handshake, verified with Verus.

- `src/seqnum.rs`: sequence-number arithmetic modulo 2^32 and the RFC 793
  acceptability tests, with laws showing they do not depend on where the
  numbers sit in the sequence space.
- `src/wire.rs`: the IPv4 and TCP header models and the trusted wrappers
  around `etherparse` (parsing, serialising, checksums).
- `src/state.rs`, `src/sequence_space.rs`, `src/tcpheaderinfo.rs`: the
  connection state and its send and receive sequence variables.
- `src/connection.rs`: `Connection::accept` (SYN in, SYN-ACK out) and
  `Connection::on_packet`, with the handshake laws.
- `src/table.rs`: the connections keyed by address/port quadruple and what
  becomes of each incoming datagram.
- `app/main.rs`: the TUN device loop (I/O only).
