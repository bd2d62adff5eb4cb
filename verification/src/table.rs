//! The connections of the endpoint, keyed by their address/port quadruple,
//! and what becomes of each IPv4 datagram that arrives.
use std::collections::HashMap;
use vstd::prelude::*;
use vstd::slice::slice_subrange;
use crate::connection::{
    accepted_connection, lemma_established_delivers_data, lemma_handshake_completes, outcome_of, seg_len, state_after,
    syn_ack_bytes, syn_ack_checksums_valid, syn_ack_header, Connection, PacketOutcome, INITIAL_SEQUENCE_NUMBER,
    INITIAL_WINDOW,
};
use crate::seqnum::seq_dist;
use crate::state::State;
use crate::wire::{
    etherparse_ipv4_slice, etherparse_tcp_slice, ipv4_header_checksum, ipv4_header_layout,
    ipv4_header_parses, lemma_read_be16, lemma_read_be32, read_be16, read_be32, tcp_header_layout,
    tcp_header_parses, tcp_header_slice_error, Ipv4SliceInfo, TcpSegmentInfo, IP_PROTOCOL_TCP,
};

verus! {

broadcast use {vstd::std_specs::hash::group_hash_axioms, vstd::array::group_array_axioms};

/// The two ends of a TCP connection: the remote (source) address and port of
/// the segments that arrive, and the local (destination) ones.
#[derive(Clone, Copy, Debug, PartialEq, Eq)]
pub struct Quad {
    pub src_addr: [u8; 4],
    pub src_port: u16,
    pub dst_addr: [u8; 4],
    pub dst_port: u16,
}

/// The value of four address bytes read big-endian.
pub open spec fn addr_value(a: Seq<u8>) -> int {
    a[0] * 0x100_0000 + a[1] * 0x1_0000 + a[2] * 0x100 + a[3]
}

/// The number under which the connection between the given ends is kept:
/// source address, source port, destination address and destination port,
/// side by side in 96 bits.
pub open spec fn quad_key(src_addr: Seq<u8>, src_port: u16, dst_addr: Seq<u8>, dst_port: u16) -> u128 {
    (addr_value(src_addr) * 0x1_0000_0000_0000_0000 + src_port * 0x1_0000_0000_0000 + addr_value(
        dst_addr,
    ) * 0x1_0000 + dst_port) as u128
}

/// Splitting a number written in a mixed radix: high * radix + low, with
/// 0 <= low < radix, determines both parts.
proof fn lemma_split_radix(high1: int, low1: int, high2: int, low2: int, radix: int)
    by (nonlinear_arith)
    requires
        radix > 0,
        0 <= low1 < radix,
        0 <= low2 < radix,
        high1 * radix + low1 == high2 * radix + low2,
    ensures
        high1 == high2,
        low1 == low2,
{
}

/// Four address bytes are determined by their big-endian value, which lies
/// below 2^32.
proof fn lemma_addr_value_injective(a: Seq<u8>, b: Seq<u8>)
    requires
        a.len() == 4,
        b.len() == 4,
    ensures
        0 <= addr_value(a) < 0x1_0000_0000,
        addr_value(a) == addr_value(b) ==> a == b,
{
    if addr_value(a) == addr_value(b) {
        let a2 = a[0] * 0x100 + a[1];
        let b2 = b[0] * 0x100 + b[1];
        let a3 = a2 * 0x100 + a[2];
        let b3 = b2 * 0x100 + b[2];
        assert(addr_value(a) == a3 * 0x100 + a[3]);
        assert(addr_value(b) == b3 * 0x100 + b[3]);
        lemma_split_radix(a3, a[3] as int, b3, b[3] as int, 0x100);
        lemma_split_radix(a2, a[2] as int, b2, b[2] as int, 0x100);
        lemma_split_radix(a[0] as int, a[1] as int, b[0] as int, b[1] as int, 0x100);
        assert(a =~= b);
    }
}

/// Distinct ends are kept under distinct numbers: `quad_key` is injective on
/// four-byte addresses, so what the table states per key it states per
/// address/port quadruple.
pub proof fn lemma_quad_key_injective(
    src_addr1: Seq<u8>,
    src_port1: u16,
    dst_addr1: Seq<u8>,
    dst_port1: u16,
    src_addr2: Seq<u8>,
    src_port2: u16,
    dst_addr2: Seq<u8>,
    dst_port2: u16,
)
    requires
        src_addr1.len() == 4,
        dst_addr1.len() == 4,
        src_addr2.len() == 4,
        dst_addr2.len() == 4,
    ensures
        quad_key(src_addr1, src_port1, dst_addr1, dst_port1) == quad_key(
            src_addr2,
            src_port2,
            dst_addr2,
            dst_port2,
        ) <==> (src_addr1 == src_addr2 && src_port1 == src_port2 && dst_addr1 == dst_addr2
            && dst_port1 == dst_port2),
{
    lemma_addr_value_injective(src_addr1, src_addr2);
    lemma_addr_value_injective(dst_addr1, dst_addr2);
    lemma_addr_value_injective(src_addr2, src_addr1);
    lemma_addr_value_injective(dst_addr2, dst_addr1);
    let s1 = addr_value(src_addr1);
    let s2 = addr_value(src_addr2);
    let d1 = addr_value(dst_addr1);
    let d2 = addr_value(dst_addr2);
    let k1 = s1 * 0x1_0000_0000_0000_0000 + src_port1 * 0x1_0000_0000_0000 + d1 * 0x1_0000 + dst_port1;
    let k2 = s2 * 0x1_0000_0000_0000_0000 + src_port2 * 0x1_0000_0000_0000 + d2 * 0x1_0000 + dst_port2;
    assert(0 <= k1 < 0x1_0000_0000_0000_0000_0000_0000);
    assert(0 <= k2 < 0x1_0000_0000_0000_0000_0000_0000);
    if quad_key(src_addr1, src_port1, dst_addr1, dst_port1) == quad_key(src_addr2, src_port2, dst_addr2, dst_port2) {
        assert(k1 == k2);
        let h1 = s1 * 0x1_0000 + src_port1;
        let h2 = s2 * 0x1_0000 + src_port2;
        let m1 = h1 * 0x1_0000_0000 + d1;
        let m2 = h2 * 0x1_0000_0000 + d2;
        assert(k1 == m1 * 0x1_0000 + dst_port1);
        assert(k2 == m2 * 0x1_0000 + dst_port2);
        lemma_split_radix(m1, dst_port1 as int, m2, dst_port2 as int, 0x1_0000);
        lemma_split_radix(h1, d1, h2, d2, 0x1_0000_0000);
        lemma_split_radix(s1, src_port1 as int, s2, src_port2 as int, 0x1_0000);
    }
}

/// Two quadruples are kept under the same number exactly when they are the
/// same ends.
pub proof fn lemma_quad_keys_distinct(q1: Quad, q2: Quad)
    ensures
        quad_key(q1.src_addr@, q1.src_port, q1.dst_addr@, q1.dst_port) == quad_key(
            q2.src_addr@,
            q2.src_port,
            q2.dst_addr@,
            q2.dst_port,
        ) <==> q1 == q2,
{
    lemma_quad_key_injective(
        q1.src_addr@,
        q1.src_port,
        q1.dst_addr@,
        q1.dst_port,
        q2.src_addr@,
        q2.src_port,
        q2.dst_addr@,
        q2.dst_port,
    );
    if q1.src_addr@ == q2.src_addr@ && q1.dst_addr@ == q2.dst_addr@ {
        assert(q1.src_addr =~= q2.src_addr);
        assert(q1.dst_addr =~= q2.dst_addr);
    }
}

impl Quad {
    /// The number under which the connection between these ends is kept.
    pub fn key(&self) -> (r: u128)
        ensures
            r == quad_key(self.src_addr@, self.src_port, self.dst_addr@, self.dst_port),
    {
        let s = self.src_addr;
        let d = self.dst_addr;
        let sv: u128 = (s[0] as u128) * 0x100_0000 + (s[1] as u128) * 0x1_0000 + (s[2] as u128) * 0x100
            + (s[3] as u128);
        let dv: u128 = (d[0] as u128) * 0x100_0000 + (d[1] as u128) * 0x1_0000 + (d[2] as u128) * 0x100
            + (d[3] as u128);
        sv * 0x1_0000_0000_0000_0000 + (self.src_port as u128) * 0x1_0000_0000_0000 + dv * 0x1_0000
            + (self.dst_port as u128)
    }
}

/// The IPv4 header information of a datagram whose header parses.
pub open spec fn ipv4_info_of(b: Seq<u8>) -> Ipv4SliceInfo {
    Ipv4SliceInfo {
        header_len: ((b[0] % 16) * 4) as usize,
        protocol: b[9],
        source: choose|a: [u8; 4]| a@ == b.subrange(12, 16),
        destination: choose|a: [u8; 4]| a@ == b.subrange(16, 20),
    }
}

/// The TCP header information of a segment whose header parses.
pub open spec fn tcp_info_of(t: Seq<u8>) -> TcpSegmentInfo {
    TcpSegmentInfo {
        header_len: ((t[12] / 16) * 4) as usize,
        source_port: read_be16(t, 0),
        destination_port: read_be16(t, 2),
        sequence_number: read_be32(t, 4),
        acknowledgment_number: read_be32(t, 8),
        fin: t[13] % 2 == 1,
        syn: (t[13] / 2) % 2 == 1,
        rst: (t[13] / 4) % 2 == 1,
        ack: (t[13] / 16) % 2 == 1,
        window_size: read_be16(t, 14),
    }
}

/// The TCP part of a datagram: what follows its IPv4 header.
pub open spec fn tcp_part(b: Seq<u8>) -> Seq<u8> {
    b.subrange((b[0] % 16) * 4, b.len() as int)
}

/// The data of a TCP segment: what follows its header.
pub open spec fn segment_data(t: Seq<u8>) -> Seq<u8> {
    t.subrange((t[12] / 16) * 4, t.len() as int)
}

/// The key of the connection a datagram whose headers parse belongs to.
pub open spec fn datagram_key(b: Seq<u8>) -> u128 {
    let t = tcp_part(b);
    quad_key(b.subrange(12, 16), read_be16(t, 0), b.subrange(16, 20), read_be16(t, 2))
}

/// Whether a datagram carries a TCP segment whose IPv4 and TCP headers parse.
pub open spec fn carries_tcp(b: Seq<u8>) -> bool {
    &&& ipv4_header_parses(b)
    &&& b[9] == IP_PROTOCOL_TCP
    &&& tcp_header_parses(tcp_part(b))
}

/// The connections after the datagram `b` arrived at the connections `m`: a
/// SYN from unknown ends (whose sequence number is not the last one) opens a
/// connection, a segment for known ends goes to its connection, and anything
/// else changes nothing.
pub open spec fn table_after(m: Map<u128, Connection>, b: Seq<u8>) -> Map<u128, Connection> {
    let t = tcp_part(b);
    let seg = tcp_info_of(t);
    let data = segment_data(t);
    let key = datagram_key(b);
    if !carries_tcp(b) {
        m
    } else if !m.contains_key(key) {
        if seg.syn && seg.sequence_number < u32::MAX {
            m.insert(key, accepted_connection(ipv4_info_of(b), seg))
        } else {
            m
        }
    } else {
        let c = m[key];
        m.insert(key, Connection { state: state_after(c, seg, data), ..c })
    }
}

/// What becomes of the datagram `b` arriving at the connections `m`.
pub open spec fn datagram_outcome(m: Map<u128, Connection>, b: Seq<u8>, r: DatagramOutcome) -> bool {
    let t = tcp_part(b);
    let seg = tcp_info_of(t);
    let data = segment_data(t);
    let key = datagram_key(b);
    if !ipv4_header_parses(b) {
        r == DatagramOutcome::NotIpv4
    } else if b[9] != IP_PROTOCOL_TCP {
        r == DatagramOutcome::NotTcp
    } else if !tcp_header_parses(t) {
        r matches DatagramOutcome::BadTcpHeader(e) && e@ == tcp_header_slice_error(t)
    } else if !m.contains_key(key) {
        if !seg.syn {
            r matches DatagramOutcome::Refused(e) && e@ == "syn not exist"@
        } else if seg.sequence_number == u32::MAX {
            r == DatagramOutcome::SequenceOverflow
        } else {
            r matches DatagramOutcome::Accepted(reply) && reply@ == syn_ack_bytes(
                accepted_connection(ipv4_info_of(b), seg),
            ) && syn_ack_checksums_valid(accepted_connection(ipv4_info_of(b), seg), reply@)
        }
    } else {
        r matches DatagramOutcome::Handled(o) && outcome_of(m[key], seg, data, o)
    }
}

/// What became of an incoming IPv4 datagram.
#[derive(Debug, PartialEq, Eq)]
pub enum DatagramOutcome {
    /// It does not start with an IPv4 header; it was dropped.
    NotIpv4,
    /// It does not carry TCP; it was dropped.
    NotTcp,
    /// Its TCP header is malformed; the message says how.
    BadTcpHeader(String),
    /// It opens no connection: a segment without SYN for unknown ends.
    Refused(String),
    /// A SYN for unknown ends whose sequence number is the last one: the
    /// receive sequence space cannot start after it.
    SequenceOverflow,
    /// A SYN opened a connection; the SYN-ACK datagram to send back.
    Accepted(Vec<u8>),
    /// The segment went to an existing connection, which made this of it.
    Handled(PacketOutcome),
}

/// The connections of the endpoint.
pub struct ConnectionTable {
    connections: HashMap<u128, Connection>,
}

impl View for ConnectionTable {
    type V = Map<u128, Connection>;

    closed spec fn view(&self) -> Map<u128, Connection> {
        self.connections@
    }
}

impl ConnectionTable {
    pub fn new() -> (r: ConnectionTable)
        ensures
            r@ == Map::<u128, Connection>::empty(),
    {
        ConnectionTable { connections: HashMap::new() }
    }

    /// Number of open connections.
    pub fn len(&self) -> (r: usize)
        ensures
            r == self@.len(),
    {
        self.connections.len()
    }

    /// The connection between the given ends, if there is one.
    pub fn get(&self, quad: &Quad) -> (r: Option<&Connection>)
        ensures
            match r {
                Some(c) => self@.contains_key(quad_key(quad.src_addr@, quad.src_port, quad.dst_addr@, quad.dst_port))
                    && *c == self@[quad_key(quad.src_addr@, quad.src_port, quad.dst_addr@, quad.dst_port)],
                None => !self@.contains_key(quad_key(quad.src_addr@, quad.src_port, quad.dst_addr@, quad.dst_port)),
            },
    {
        let key = quad.key();
        self.connections.get(&key)
    }

    /// Takes in one IPv4 datagram: parses its IPv4 and TCP headers, opens a
    /// connection for a SYN from unknown ends, and hands any other segment to
    /// the connection it belongs to.
    pub fn on_datagram(&mut self, bytes: &[u8]) -> (r: DatagramOutcome)
        ensures
            final(self)@ == table_after(old(self)@, bytes@),
            datagram_outcome(old(self)@, bytes@, r),
    {
        let ghost b = bytes@;
        let ip = match etherparse_ipv4_slice(bytes) {
            None => return DatagramOutcome::NotIpv4,
            Some(ip) => ip,
        };
        if ip.protocol != IP_PROTOCOL_TCP {
            return DatagramOutcome::NotTcp;
        }
        let rest = slice_subrange(bytes, ip.header_len, bytes.len());
        let seg = match etherparse_tcp_slice(rest) {
            Err(e) => return DatagramOutcome::BadTcpHeader(e),
            Ok(seg) => seg,
        };
        let data = slice_subrange(rest, seg.header_len, rest.len());
        let quad = Quad {
            src_addr: ip.source,
            src_port: seg.source_port,
            dst_addr: ip.destination,
            dst_port: seg.destination_port,
        };
        let key = quad.key();
        proof {
            let src = choose|a: [u8; 4]| a@ == b.subrange(12, 16);
            let dst = choose|a: [u8; 4]| a@ == b.subrange(16, 20);
            assert(ip.source@ == b.subrange(12, 16));
            assert(ip.destination@ == b.subrange(16, 20));
            assert(src@ == ip.source@);
            assert(dst@ == ip.destination@);
            assert(forall|i: int| 0 <= i < 4 ==> src@[i] == src[i]);
            assert(src =~= ip.source);
            assert(dst =~= ip.destination);
            assert(ip == ipv4_info_of(b));
            assert(seg == tcp_info_of(rest@));
        }
        if self.connections.contains_key(&key) {
            let mut c = self.connections.remove(&key).unwrap();
            let outcome = c.on_packet(&seg, data);
            self.connections.insert(key, c);
            DatagramOutcome::Handled(outcome)
        } else {
            if seg.syn && seg.sequence_number == u32::MAX {
                return DatagramOutcome::SequenceOverflow;
            }
            let accepted = match Connection::accept(&ip, &seg, data) {
                Err(e) => return DatagramOutcome::Refused(e),
                Ok(accepted) => accepted,
            };
            let (c, reply) = accepted.unwrap();
            self.connections.insert(key, c);
            DatagramOutcome::Accepted(reply)
        }
    }
}

/// A datagram only ever touches the connection of its own ends: every other
/// connection is kept as it was.
pub proof fn lemma_other_connections_untouched(m: Map<u128, Connection>, b: Seq<u8>, k: u128)
    requires
        k != datagram_key(b),
    ensures
        table_after(m, b).contains_key(k) == m.contains_key(k),
        m.contains_key(k) ==> table_after(m, b)[k] == m[k],
{
}

/// Connections are never dropped: every connection there was before a
/// datagram arrived is still there after it.
pub proof fn lemma_connections_kept(m: Map<u128, Connection>, b: Seq<u8>, k: u128)
    requires
        m.contains_key(k),
    ensures
        table_after(m, b).contains_key(k),
{
}

/// The handshake as datagrams: a SYN from unknown ends opens a connection,
/// and the datagram from the same ends that acknowledges the SYN-ACK (ACK
/// set, acknowledgment number ISS + 1, sequence number the SYN's plus one,
/// fitting the window the SYN announced) establishes it.
pub proof fn lemma_datagram_handshake(m: Map<u128, Connection>, syn: Seq<u8>, ack: Seq<u8>)
    requires
        carries_tcp(syn),
        carries_tcp(ack),
        !m.contains_key(datagram_key(syn)),
        datagram_key(ack) == datagram_key(syn),
        tcp_info_of(tcp_part(syn)).syn,
        tcp_info_of(tcp_part(syn)).sequence_number < u32::MAX,
        tcp_info_of(tcp_part(ack)).ack,
        tcp_info_of(tcp_part(ack)).acknowledgment_number == INITIAL_SEQUENCE_NUMBER + 1,
        tcp_info_of(tcp_part(ack)).sequence_number == tcp_info_of(tcp_part(syn)).sequence_number + 1,
        seg_len(
            segment_data(tcp_part(ack)).len(),
            tcp_info_of(tcp_part(ack)).syn,
            tcp_info_of(tcp_part(ack)).fin,
        ) == 0 || tcp_info_of(tcp_part(syn)).window_size > 0,
    ensures
        table_after(m, syn).contains_key(datagram_key(syn)),
        table_after(m, syn)[datagram_key(syn)].state == State::SynRcvd,
        table_after(table_after(m, syn), ack)[datagram_key(syn)].state == State::Estab,
{
    let key = datagram_key(syn);
    let s = tcp_info_of(tcp_part(syn));
    let a = tcp_info_of(tcp_part(ack));
    lemma_handshake_completes(ipv4_info_of(syn), s, a, segment_data(tcp_part(ack)));
}

/// The datagram a SYN is answered with parses back as a TCP SYN-ACK without
/// data, sent from the ends the SYN was addressed to back to the ends it came
/// from, carrying the initial sequence number and window of the connection
/// and acknowledging the SYN.
pub proof fn lemma_syn_ack_parses(iph: Ipv4SliceInfo, syn: TcpSegmentInfo)
    requires
        syn.syn,
        syn.sequence_number < u32::MAX,
    ensures
        ({
            let b = syn_ack_bytes(accepted_connection(iph, syn));
            let t = tcp_part(b);
            let s = tcp_info_of(t);
            &&& carries_tcp(b)
            &&& b.subrange(12, 16) == iph.destination@
            &&& b.subrange(16, 20) == iph.source@
            &&& s.source_port == syn.destination_port
            &&& s.destination_port == syn.source_port
            &&& s.sequence_number == INITIAL_SEQUENCE_NUMBER
            &&& s.acknowledgment_number == syn.sequence_number + 1
            &&& s.syn && s.ack && !s.fin && !s.rst
            &&& s.window_size == INITIAL_WINDOW
            &&& segment_data(t).len() == 0
        }),
{
    let c = accepted_connection(iph, syn);
    let h = syn_ack_header(c);
    let ip = ipv4_header_layout(c.iph, ipv4_header_checksum(c.iph));
    let tl = tcp_header_layout(h);
    let b = syn_ack_bytes(c);
    assert(ip.len() == 20);
    assert(tl.len() == 20);
    assert(b == ip + tl);
    assert(b[0] == 0x45u8);
    assert(b[9] == IP_PROTOCOL_TCP);
    assert(b.subrange(12, 16) =~= iph.destination@);
    assert(b.subrange(16, 20) =~= iph.source@);
    let t = tcp_part(b);
    assert(t =~= tl);
    assert(t[12] == 0x50u8);
    assert(t[13] == 18u8);
    lemma_read_be16(t, 0, h.source_port);
    lemma_read_be16(t, 2, h.destination_port);
    lemma_read_be32(t, 4, h.sequence_number);
    lemma_read_be32(t, 8, h.acknowledgment_number);
    lemma_read_be16(t, 14, h.window_size);
}

/// A segment for an established connection has as its data exactly the bytes
/// after its TCP header as the header's data offset gives it, options
/// included: a datagram with IPv4 header length h and TCP data offset o hands
/// on bytes h + 4o .. of the datagram, ASCII capitals lowered, when its
/// acknowledgment number and sequence number are acceptable.
pub proof fn lemma_established_datagram_data(m: Map<u128, Connection>, b: Seq<u8>, r: DatagramOutcome)
    requires
        ipv4_header_parses(b),
        b[9] == IP_PROTOCOL_TCP,
        tcp_header_parses(b.subrange((b[0] % 16) * 4, b.len() as int)),
        m.contains_key(datagram_key(b)),
        m[datagram_key(b)].state == State::Estab,
        ({
            let c = m[datagram_key(b)];
            let t = b.subrange((b[0] % 16) * 4, b.len() as int);
            &&& 0 < seq_dist(c.send.una, read_be32(t, 8)) <= seq_dist(c.send.una, c.send.nxt)
            &&& c.recv.wnd > 0
            &&& seq_dist(c.recv.nxt, read_be32(t, 4)) < c.recv.wnd
        }),
        datagram_outcome(m, b, r),
    ensures
        ({
            let t = b.subrange((b[0] % 16) * 4, b.len() as int);
            let payload = b.subrange((b[0] % 16) * 4 + (t[12] / 16) * 4, b.len() as int);
            r matches DatagramOutcome::Handled(PacketOutcome::Data(v)) && v@.len() == payload.len()
                && forall|i: int|
                0 <= i < payload.len() ==> #[trigger] v@[i] == (if 0x41 <= payload[i] <= 0x5a {
                    (payload[i] + 0x20) as u8
                } else {
                    payload[i]
                })
        }),
        table_after(m, b)[datagram_key(b)].state == State::Estab,
{
    let hl = (b[0] % 16) * 4;
    let t = b.subrange(hl, b.len() as int);
    let payload = b.subrange(hl + (t[12] / 16) * 4, b.len() as int);
    assert(tcp_part(b) == t);
    assert(segment_data(t) =~= payload);
    let c = m[datagram_key(b)];
    if let DatagramOutcome::Handled(o) = r {
        lemma_established_delivers_data(c, tcp_info_of(t), payload, o);
    }
}

} // verus!
