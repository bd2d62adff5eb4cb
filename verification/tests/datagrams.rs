use etherparse::PacketBuilder;
use tcp_tun::{ConnectionTable, DatagramOutcome, PacketOutcome, Quad, State};

const CLIENT: [u8; 4] = [10, 0, 0, 2];
const SERVER: [u8; 4] = [10, 0, 0, 1];

fn quad() -> Quad {
    Quad { src_addr: CLIENT, src_port: 40000, dst_addr: SERVER, dst_port: 80 }
}

fn syn(seq: u32) -> Vec<u8> {
    let mut out = Vec::new();
    PacketBuilder::ipv4(CLIENT, SERVER, 64).tcp(40000, 80, seq, 1024).syn().write(&mut out, &[]).unwrap();
    out
}

fn ack(seq: u32, ack_number: u32, payload: &[u8]) -> Vec<u8> {
    let mut out = Vec::new();
    PacketBuilder::ipv4(CLIENT, SERVER, 64)
        .tcp(40000, 80, seq, 1024)
        .ack(ack_number)
        .write(&mut out, payload)
        .unwrap();
    out
}

#[test]
fn non_ipv4_bytes_are_dropped() {
    let mut t = ConnectionTable::new();
    assert_eq!(t.on_datagram(&[0x60, 0, 0, 0]), DatagramOutcome::NotIpv4);
    let mut v6ish = syn(1000);
    v6ish[0] = 0x65;
    assert_eq!(t.on_datagram(&v6ish), DatagramOutcome::NotIpv4);
    assert_eq!(t.len(), 0);
}

#[test]
fn non_tcp_datagrams_are_dropped() {
    let mut t = ConnectionTable::new();
    let mut out = Vec::new();
    PacketBuilder::ipv4(CLIENT, SERVER, 64).udp(5000, 53).write(&mut out, b"q").unwrap();
    assert_eq!(t.on_datagram(&out), DatagramOutcome::NotTcp);
    assert_eq!(t.len(), 0);
}

#[test]
fn truncated_tcp_header_is_reported() {
    let mut t = ConnectionTable::new();
    let d = syn(1000);
    let expected = format!("{}", etherparse::TcpHeaderSlice::from_slice(&d[20..30]).unwrap_err());
    assert!(!expected.is_empty());
    assert_eq!(t.on_datagram(&d[..30]), DatagramOutcome::BadTcpHeader(expected));
    assert_eq!(t.len(), 0);
}

#[test]
fn segment_without_syn_from_unknown_ends_is_refused() {
    let mut t = ConnectionTable::new();
    assert_eq!(t.on_datagram(&ack(1001, 65, &[])), DatagramOutcome::Refused("syn not exist".to_string()));
    assert_eq!(t.len(), 0);
}

#[test]
fn syn_at_last_sequence_number_overflows() {
    let mut t = ConnectionTable::new();
    assert_eq!(t.on_datagram(&syn(u32::MAX)), DatagramOutcome::SequenceOverflow);
    assert_eq!(t.len(), 0);
}

#[test]
fn syn_opens_connection_and_is_answered() {
    let mut t = ConnectionTable::new();
    let reply = match t.on_datagram(&syn(1000)) {
        DatagramOutcome::Accepted(reply) => reply,
        other => panic!("unexpected {:?}", other),
    };
    assert_eq!(t.len(), 1);
    let c = t.get(&quad()).unwrap();
    assert_eq!(c.state, State::SynRcvd);
    assert_eq!(c.recv.irs, 1000);
    // the reply parses back as a SYN-ACK to the client
    let ip = etherparse::Ipv4HeaderSlice::from_slice(&reply).unwrap();
    assert_eq!(ip.source(), SERVER);
    assert_eq!(ip.destination(), CLIENT);
    let tcp = etherparse::TcpHeaderSlice::from_slice(&reply[20..]).unwrap();
    assert!(tcp.syn() && tcp.ack());
    assert_eq!(tcp.source_port(), 80);
    assert_eq!(tcp.destination_port(), 40000);
    assert_eq!(tcp.sequence_number(), 64);
    assert_eq!(tcp.acknowledgment_number(), 1001);
    assert_eq!(tcp.calc_checksum_ipv4_raw(SERVER, CLIENT, &[]).unwrap(), tcp.checksum());
    assert_eq!(etherparse::Ipv4Header::from_slice(&reply).unwrap().0.calc_header_checksum(), ip.header_checksum());
}

#[test]
fn handshake_over_datagrams() {
    let mut t = ConnectionTable::new();
    assert!(matches!(t.on_datagram(&syn(1000)), DatagramOutcome::Accepted(_)));
    assert_eq!(
        t.on_datagram(&ack(1001, 65, &[])),
        DatagramOutcome::Handled(PacketOutcome::Established)
    );
    assert_eq!(t.get(&quad()).unwrap().state, State::Estab);
    assert_eq!(
        t.on_datagram(&ack(1001, 65, b"GET /")),
        DatagramOutcome::Handled(PacketOutcome::Data(b"get /".to_vec()))
    );
    assert_eq!(t.len(), 1);
}

#[test]
fn second_syn_goes_to_existing_connection() {
    let mut t = ConnectionTable::new();
    t.on_datagram(&syn(1000));
    let before = *t.get(&quad()).unwrap();
    // a repeated SYN carries no acceptable acknowledgment
    assert_eq!(
        t.on_datagram(&syn(1000)),
        DatagramOutcome::Handled(PacketOutcome::UnacceptableAck { reset: true, send: before.send, ack: 0 })
    );
    assert_eq!(*t.get(&quad()).unwrap(), before);
    assert_eq!(t.len(), 1);
}

#[test]
fn other_ends_get_their_own_connection() {
    let mut t = ConnectionTable::new();
    t.on_datagram(&syn(1000));
    let mut out = Vec::new();
    PacketBuilder::ipv4(CLIENT, SERVER, 64).tcp(40001, 80, 5000, 512).syn().write(&mut out, &[]).unwrap();
    assert!(matches!(t.on_datagram(&out), DatagramOutcome::Accepted(_)));
    assert_eq!(t.len(), 2);
    assert_eq!(t.get(&quad()).unwrap().recv.irs, 1000);
    let other = Quad { src_port: 40001, ..quad() };
    assert_eq!(t.get(&other).unwrap().recv.irs, 5000);
    assert_eq!(t.get(&other).unwrap().recv.wnd, 512);
}

#[test]
fn quad_keys_differ_by_each_end() {
    let q = quad();
    let k = q.key();
    assert_ne!(k, Quad { src_port: 40001, ..q }.key());
    assert_ne!(k, Quad { dst_port: 81, ..q }.key());
    assert_ne!(k, Quad { src_addr: [10, 0, 0, 3], ..q }.key());
    assert_ne!(k, Quad { dst_addr: [10, 0, 1, 1], ..q }.key());
    assert_eq!(k, (0x0a00_0002u128 << 64) | (40000u128 << 48) | (0x0a00_0001u128 << 16) | 80);
}
