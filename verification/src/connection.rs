use vstd::prelude::*;
use crate::seqnum::{
    seq_dist, ack_acceptable, lemma_window_as_between, segment_acceptable, window_end, wrapped_cmp_lt,
};
use crate::sequence_space::{ReciverSequenceSpace, SenderSequenceSpace};
use crate::state::State;
use crate::tcpheaderinfo::TcpHeaderInfo;
use crate::wire::{
    etherparse_ipv4_new, etherparse_ipv4_write, etherparse_tcp_checksum_ipv4, etherparse_tcp_write,
    checksum_valid, ipv4_header_checksum, ipv4_header_layout, tcp_checksum_ipv4, tcp_header_layout,
    lemma_ipv4_header_checksum_valid, lemma_tcp_checksum_valid, tcp_pseudo_header, Ipv4HeaderFields,
    Ipv4SliceInfo, TcpHeaderFields, TcpSegmentInfo, IP_PROTOCOL_TCP,
};

verus! {

/// The initial send sequence number of every connection.
pub const INITIAL_SEQUENCE_NUMBER: u32 = 64;

/// The send window every connection advertises.
pub const INITIAL_WINDOW: u16 = 10;

/// Time to live of the IPv4 datagrams a connection sends.
pub const TIME_TO_LIVE: u8 = 64;

/// A connection opened passively by a SYN.
#[derive(Clone, Copy, Debug, PartialEq, Eq)]
pub struct Connection {
    pub state: State,
    pub send: SenderSequenceSpace,
    pub recv: ReciverSequenceSpace,
    /// The IPv4 header of the datagrams this connection sends.
    pub iph: Ipv4HeaderFields,
    /// The fixed part of the TCP headers this connection sends.
    pub tcpi: TcpHeaderInfo,
}

/// What `on_packet` made of a segment.
#[derive(Debug, PartialEq, Eq)]
pub enum PacketOutcome {
    /// The acknowledgment number was not acceptable; the segment was dropped.
    /// `reset` is set when the connection is not yet synchronized, where
    /// RFC 793 answers with a reset. `send` is the connection's send sequence
    /// space and `ack` the refused acknowledgment number.
    UnacceptableAck { reset: bool, send: SenderSequenceSpace, ack: u32 },
    /// The sequence number was not acceptable; the segment was dropped.
    /// `recv` is the connection's receive sequence space, `seq` the refused
    /// sequence number and `data_len` the length of the segment's data.
    UnacceptableSeq { recv: ReciverSequenceSpace, seq: u32, data_len: usize },
    /// A segment without ACK arrived in SYN-RECEIVED; it was dropped.
    AwaitingAck,
    /// The SYN-ACK was acknowledged: the connection is now established.
    Established,
    /// Data arrived on an established connection; it is handed on lower-cased.
    Data(Vec<u8>),
}

/// ASCII lower case of a byte; other bytes are kept.
pub open spec fn ascii_lower(b: u8) -> u8 {
    if 0x41 <= b <= 0x5a {
        (b + 0x20) as u8
    } else {
        b
    }
}

/// The number of sequence numbers a segment occupies: its data, plus one
/// for SYN and one for FIN, reduced modulo 2^32.
pub open spec fn seg_len(data_len: nat, syn: bool, fin: bool) -> u32 {
    ((data_len + (if syn { 1int } else { 0 }) + (if fin { 1int } else { 0 })) % 0x1_0000_0000) as u32
}

/// The IPv4 header a connection accepted from the datagram `iph` sends with:
/// addresses swapped, protocol TCP, and room for a TCP header without payload.
pub open spec fn reply_ipv4_header(iph: Ipv4SliceInfo) -> Ipv4HeaderFields {
    Ipv4HeaderFields {
        total_len: 40,
        identification: 0,
        dont_fragment: true,
        more_fragments: false,
        time_to_live: TIME_TO_LIVE,
        protocol: IP_PROTOCOL_TCP,
        source: iph.destination,
        destination: iph.source,
    }
}

/// The connection `accept` opens for the SYN `tcph` carried in `iph`.
pub open spec fn accepted_connection(iph: Ipv4SliceInfo, tcph: TcpSegmentInfo) -> Connection {
    Connection {
        state: State::SynRcvd,
        send: SenderSequenceSpace {
            una: INITIAL_SEQUENCE_NUMBER,
            nxt: (INITIAL_SEQUENCE_NUMBER + 1) as u32,
            wnd: INITIAL_WINDOW,
            up: false,
            wl1: 0,
            wl2: 0,
            iss: INITIAL_SEQUENCE_NUMBER,
        },
        recv: ReciverSequenceSpace {
            nxt: (tcph.sequence_number + 1) as u32,
            wnd: tcph.window_size,
            up: false,
            irs: tcph.sequence_number,
        },
        iph: reply_ipv4_header(iph),
        tcpi: TcpHeaderInfo {
            src: tcph.destination_port,
            dst: tcph.source_port,
            wnd: INITIAL_WINDOW,
            seq_number: INITIAL_SEQUENCE_NUMBER,
        },
    }
}

/// The SYN-ACK header of a connection before its checksum is filled in.
pub open spec fn syn_ack_unsummed(c: Connection) -> TcpHeaderFields {
    TcpHeaderFields { acknowledgment_number: c.recv.nxt, syn: true, ack: true, ..c.tcpi.built() }
}

/// The SYN-ACK header a connection answers its SYN with.
pub open spec fn syn_ack_header(c: Connection) -> TcpHeaderFields {
    TcpHeaderFields {
        checksum: tcp_checksum_ipv4(
            syn_ack_unsummed(c),
            c.iph.source@,
            c.iph.destination@,
            Seq::empty(),
        ),
        ..syn_ack_unsummed(c)
    }
}

/// The datagram a connection answers its SYN with: its IPv4 header followed
/// by the SYN-ACK.
pub open spec fn syn_ack_bytes(c: Connection) -> Seq<u8> {
    ipv4_header_layout(c.iph, ipv4_header_checksum(c.iph)) + tcp_header_layout(syn_ack_header(c))
}

/// Whether the acknowledgment and sequence numbers of a segment carrying
/// `data` pass the connection's checks.
pub open spec fn segment_passes(c: Connection, tcph: TcpSegmentInfo, data: Seq<u8>) -> bool {
    &&& ack_acceptable(c.send.una, c.send.nxt, tcph.acknowledgment_number)
    &&& segment_acceptable(
        c.recv.nxt,
        c.recv.wnd,
        tcph.sequence_number,
        seg_len(data.len(), tcph.syn, tcph.fin),
    )
}

/// Whether the checksums of a SYN-ACK datagram of `c` check out: that of its
/// IPv4 header, and that of its TCP segment under the pseudo header.
pub open spec fn syn_ack_checksums_valid(c: Connection, bytes: Seq<u8>) -> bool {
    &&& checksum_valid(bytes.subrange(0, 20))
    &&& checksum_valid(
        tcp_pseudo_header(c.iph.source@, c.iph.destination@, 20) + bytes.subrange(20, 40),
    )
}

/// The state a connection is in after `on_packet` handled the segment: the
/// handshake completes when an acceptable segment with ACK arrives in
/// SYN-RECEIVED; nothing else changes the state.
pub open spec fn state_after(c: Connection, tcph: TcpSegmentInfo, data: Seq<u8>) -> State {
    if segment_passes(c, tcph, data) && c.state == State::SynRcvd && tcph.ack {
        State::Estab
    } else {
        c.state
    }
}

/// What `on_packet` makes of a segment.
pub open spec fn outcome_of(c: Connection, tcph: TcpSegmentInfo, data: Seq<u8>, r: PacketOutcome) -> bool {
    if !ack_acceptable(c.send.una, c.send.nxt, tcph.acknowledgment_number) {
        r == PacketOutcome::UnacceptableAck {
            reset: !c.state.synchronized(),
            send: c.send,
            ack: tcph.acknowledgment_number,
        }
    } else if !segment_passes(c, tcph, data) {
        r == PacketOutcome::UnacceptableSeq {
            recv: c.recv,
            seq: tcph.sequence_number,
            data_len: data.len() as usize,
        }
    } else {
        match c.state {
            State::SynRcvd => if tcph.ack {
                r == PacketOutcome::Established
            } else {
                r == PacketOutcome::AwaitingAck
            },
            State::Estab => r matches PacketOutcome::Data(v) && v@ == data.map_values(
                |b: u8| ascii_lower(b),
            ),
        }
    }
}

/// ASCII lower case of `data`, byte by byte.
pub fn ascii_lowercase(data: &[u8]) -> (r: Vec<u8>)
    ensures
        r@ == data@.map_values(|b: u8| ascii_lower(b)),
{
    let mut r: Vec<u8> = Vec::with_capacity(data.len());
    let mut i: usize = 0;
    while i < data.len()
        invariant
            i <= data@.len(),
            r@ == data@.subrange(0, i as int).map_values(|b: u8| ascii_lower(b)),
        decreases data@.len() - i,
    {
        let b = data[i];
        let l = if 0x41 <= b && b <= 0x5a { b + 0x20 } else { b };
        r.push(l);
        proof {
            assert(data@.subrange(0, i + 1) == data@.subrange(0, i as int).push(b));
        }
        i = i + 1;
    }
    assert(data@.subrange(0, data@.len() as int) == data@);
    r
}

/// The number of sequence numbers a segment with `data_len` bytes of data
/// and the given SYN and FIN flags occupies, modulo 2^32.
pub fn segment_len(data_len: usize, syn: bool, fin: bool) -> (r: u32)
    ensures
        r == seg_len(data_len as nat, syn, fin),
{
    let low = (data_len as u64 % 0x1_0000_0000) as u32;
    let mut n = low;
    if syn {
        n = n.wrapping_add(1);
    }
    if fin {
        n = n.wrapping_add(1);
    }
    n
}

impl Connection {
    /// Opens a connection in answer to a SYN: returns it together with the
    /// SYN-ACK datagram to send back. A segment without SYN is refused.
    pub fn accept(iph: &Ipv4SliceInfo, tcph: &TcpSegmentInfo, data: &[u8]) -> (r: Result<
        Option<(Connection, Vec<u8>)>,
        String,
    >)
        requires
            tcph.syn ==> tcph.sequence_number < u32::MAX,
        ensures
            !tcph.syn ==> (r matches Err(e) && e@ == "syn not exist"@),
            tcph.syn ==> (r matches Ok(Some((c, bytes))) && c == accepted_connection(*iph, *tcph)
                && bytes@ == syn_ack_bytes(c) && syn_ack_checksums_valid(c, bytes@)),
            tcph.syn ==> (r matches Ok(Some((c, _))) && c.state == State::SynRcvd
                && c.recv.irs == tcph.sequence_number && c.recv.nxt == tcph.sequence_number + 1
                && c.recv.wnd == tcph.window_size && c.send.iss == INITIAL_SEQUENCE_NUMBER
                && c.send.una == INITIAL_SEQUENCE_NUMBER && c.send.nxt == INITIAL_SEQUENCE_NUMBER + 1),
    {
        if !tcph.syn {
            return Err("syn not exist".to_string());
        }
        let iss = INITIAL_SEQUENCE_NUMBER;
        let wnd = INITIAL_WINDOW;
        let ip = etherparse_ipv4_new(0, TIME_TO_LIVE, IP_PROTOCOL_TCP, iph.destination, iph.source);
        let mut c = Connection {
            state: State::SynRcvd,
            send: SenderSequenceSpace { iss, una: iss, nxt: iss + 1, wnd, wl1: 0, wl2: 0, up: false },
            recv: ReciverSequenceSpace {
                irs: tcph.sequence_number,
                nxt: tcph.sequence_number + 1,
                wnd: tcph.window_size,
                up: false,
            },
            iph: ip.unwrap(),
            tcpi: TcpHeaderInfo::new(tcph.destination_port, tcph.source_port, iss, wnd),
        };
        let mut tcph_res = c.tcpi.build();
        tcph_res.acknowledgment_number = tcph.sequence_number + 1;
        tcph_res.syn = true;
        tcph_res.ack = true;
        let no_payload: Vec<u8> = Vec::new();
        let checksum = etherparse_tcp_checksum_ipv4(&tcph_res, &c.iph, no_payload.as_slice());
        tcph_res.checksum = checksum.unwrap();
        let set = c.iph.set_payload_len(tcph_res.header_len() + 0);
        assert(set is Ok);
        let mut bytes = etherparse_ipv4_write(&c.iph);
        let mut tcp_bytes = etherparse_tcp_write(&tcph_res);
        let ghost ip_part = bytes@;
        let ghost tcp_part = tcp_bytes@;
        bytes.append(&mut tcp_bytes);
        proof {
            assert(bytes@.subrange(0, 20) =~= ip_part);
            assert(bytes@.subrange(20, 40) =~= tcp_part);
            assert(no_payload@ =~= Seq::<u8>::empty());
            assert(tcp_part + no_payload@ =~= tcp_part);
            lemma_ipv4_header_checksum_valid(c.iph);
            lemma_tcp_checksum_valid(syn_ack_unsummed(c), c.iph.source@, c.iph.destination@, no_payload@);
            assert(c.iph == reply_ipv4_header(*iph));
            assert(tcph_res == syn_ack_header(c));
        }
        Ok(Some((c, bytes)))
    }

    /// Handles a segment that arrived for this connection: checks its
    /// acknowledgment and sequence numbers, completes the handshake, and hands
    /// on the data of an established connection.
    pub fn on_packet(&mut self, tcph: &TcpSegmentInfo, data: &[u8]) -> (r: PacketOutcome)
        ensures
            final(self).send == old(self).send,
            final(self).recv == old(self).recv,
            final(self).iph == old(self).iph,
            final(self).tcpi == old(self).tcpi,
            final(self).state == state_after(*old(self), *tcph, data@),
            outcome_of(*old(self), *tcph, data@, r),
    {
        if self.is_ack_valid(tcph.acknowledgment_number) == false {
            return PacketOutcome::UnacceptableAck {
                reset: !self.state.is_state_syncronized(),
                send: self.send,
                ack: tcph.acknowledgment_number,
            };
        }
        let seq_len = segment_len(data.len(), tcph.syn, tcph.fin);
        if self.is_seq_valid(tcph.sequence_number, seq_len) == false {
            return PacketOutcome::UnacceptableSeq {
                recv: self.recv,
                seq: tcph.sequence_number,
                data_len: data.len(),
            };
        }
        match self.state {
            State::SynRcvd => {
                if !tcph.ack {
                    return PacketOutcome::AwaitingAck;
                }
                self.state = State::Estab;
                PacketOutcome::Established
            },
            State::Estab => PacketOutcome::Data(ascii_lowercase(data)),
        }
    }

    /// Whether `ack` acknowledges something sent and not yet acknowledged:
    /// SND.UNA < SEG.ACK =< SND.NXT around the sequence space.
    pub fn is_ack_valid(&self, ack: u32) -> (r: bool)
        ensures
            r == ack_acceptable(self.send.una, self.send.nxt, ack),
    {
        if (self.send.una <= self.send.nxt && (ack <= self.send.una || ack > self.send.nxt)) || (
        self.send.una > self.send.nxt && (ack <= self.send.una && ack > self.send.nxt)) {
            return false;
        }
        true
    }

    ///  We have four cases for the acceptability of an incoming segment:
    /// ```text
    /// | Segment Length| Receive Window    | Test                                              |
    /// |---------------|-------------------|---------------------------------------------------|
    /// | 0             | 0                 | SEG.SEQ = RCV.NXT                                 |
    /// |---------------|-------------------|---------------------------------------------------|
    /// | 0             | >0                | RCV.NXT =< SEG.SEQ < RCV.NXT+RCV.WND              |
    /// |---------------|-------------------|---------------------------------------------------|
    /// |  0>           | 0                 | not acceptable                                    |
    /// |---------------|-------------------|---------------------------------------------------|
    /// | >0            | >0                | RCV.NXT =< SEG.SEQ < RCV.NXT+RCV.WND              |
    /// |               |                   | or RCV.NXT =< SEG.SEQ+SEG.LEN-1 < RCV.NXT+RCV.WND |
    /// |---------------|-------------------|---------------------------------------------------|
    /// ```
    pub fn is_seq_valid(&self, seq: u32, seq_len: u32) -> (r: bool)
        ensures
            r == segment_acceptable(self.recv.nxt, self.recv.wnd, seq, seq_len),
    {
        // case 1 and 3
        if self.recv.wnd == 0 {
            return seq_len == 0 && seq == self.recv.nxt;
        }
        let start = self.recv.nxt;
        let end = window_end(start, self.recv.wnd);
        let before = start.wrapping_sub(1);
        proof {
            lemma_window_as_between(start, self.recv.wnd, seq);
        }
        if wrapped_cmp_lt(before, seq, end) {
            return true;
        }
        if seq_len == 0 {
            return false;
        }
        let last_seq = seq.wrapping_add(seq_len - 1);
        proof {
            lemma_window_as_between(start, self.recv.wnd, last_seq);
        }
        wrapped_cmp_lt(before, last_seq, end)
    }
}

/// Once established, a connection stays established whatever segment arrives.
pub proof fn lemma_established_stays(c: Connection, tcph: TcpSegmentInfo, data: Seq<u8>)
    requires
        c.state == State::Estab,
    ensures
        state_after(c, tcph, data) == State::Estab,
{
}

/// A segment whose acknowledgment or sequence number is not acceptable
/// leaves the connection as it was.
pub proof fn lemma_dropped_segment_changes_nothing(c: Connection, tcph: TcpSegmentInfo, data: Seq<u8>)
    requires
        !segment_passes(c, tcph, data),
    ensures
        state_after(c, tcph, data) == c.state,
{
}

/// Right after `accept`, the only acceptable acknowledgment number is the
/// one that acknowledges the SYN-ACK: ISS + 1.
pub proof fn lemma_accepted_acknowledgment(iph: Ipv4SliceInfo, syn: TcpSegmentInfo, ack: u32)
    requires
        syn.syn,
        syn.sequence_number < u32::MAX,
    ensures
        ({
            let c = accepted_connection(iph, syn);
            ack_acceptable(c.send.una, c.send.nxt, ack) <==> ack == INITIAL_SEQUENCE_NUMBER + 1
        }),
{
}

/// The three-way handshake completes: a connection opened by `accept` for a
/// SYN is established by the segment that acknowledges its SYN-ACK (ACK set,
/// acknowledgment number ISS + 1, sequence number the SYN's plus one), as long
/// as that segment fits the window the SYN announced.
pub proof fn lemma_handshake_completes(
    iph: Ipv4SliceInfo,
    syn: TcpSegmentInfo,
    ack: TcpSegmentInfo,
    data: Seq<u8>,
)
    requires
        syn.syn,
        syn.sequence_number < u32::MAX,
        ack.ack,
        ack.acknowledgment_number == INITIAL_SEQUENCE_NUMBER + 1,
        ack.sequence_number == syn.sequence_number + 1,
        seg_len(data.len(), ack.syn, ack.fin) == 0 || syn.window_size > 0,
    ensures
        ({
            let c = accepted_connection(iph, syn);
            &&& segment_passes(c, ack, data)
            &&& state_after(c, ack, data) == State::Estab
            &&& outcome_of(c, ack, data, PacketOutcome::Established)
        }),
{
}

/// The connection `accept` opens for a SYN is in SYN-RECEIVED, has sent its
/// ISS and nothing else, and receives from the SYN's sequence number plus one
/// within exactly the window the SYN advertises, whatever its size.
pub proof fn lemma_accepted_connection_fields(iph: Ipv4SliceInfo, syn: TcpSegmentInfo)
    requires
        syn.sequence_number < u32::MAX,
    ensures
        ({
            let c = accepted_connection(iph, syn);
            &&& c.state == State::SynRcvd
            &&& c.send.iss == INITIAL_SEQUENCE_NUMBER
            &&& c.send.una == INITIAL_SEQUENCE_NUMBER
            &&& c.send.nxt == INITIAL_SEQUENCE_NUMBER + 1
            &&& c.send.wnd == INITIAL_WINDOW
            &&& c.recv.irs == syn.sequence_number
            &&& c.recv.nxt == syn.sequence_number + 1
            &&& c.recv.wnd == syn.window_size
            &&& c.iph.source == iph.destination
            &&& c.iph.destination == iph.source
            &&& c.tcpi.src == syn.destination_port
            &&& c.tcpi.dst == syn.source_port
        }),
{
}

/// On an established connection every segment that passes the acknowledgment
/// and sequence checks is handed on as data, whatever its sequence number
/// inside the window; the connection stays established.
pub proof fn lemma_established_passes_data(c: Connection, tcph: TcpSegmentInfo, data: Seq<u8>, r: PacketOutcome)
    requires
        c.state == State::Estab,
        segment_passes(c, tcph, data),
        outcome_of(c, tcph, data, r),
    ensures
        r is Data,
        state_after(c, tcph, data) == State::Estab,
{
}

/// On an established connection, a segment whose acknowledgment number lies
/// in SND.UNA < SEG.ACK <= SND.NXT and whose sequence number lies in the open
/// receive window [RCV.NXT, RCV.NXT + RCV.WND) (both read forward around the
/// sequence space) has its data handed on byte for byte, the ASCII capitals
/// lowered and every other byte kept.
pub proof fn lemma_established_delivers_data(c: Connection, tcph: TcpSegmentInfo, data: Seq<u8>, r: PacketOutcome)
    requires
        c.state == State::Estab,
        0 < seq_dist(c.send.una, tcph.acknowledgment_number) <= seq_dist(c.send.una, c.send.nxt),
        c.recv.wnd > 0,
        seq_dist(c.recv.nxt, tcph.sequence_number) < c.recv.wnd,
        outcome_of(c, tcph, data, r),
    ensures
        r matches PacketOutcome::Data(v) && v@.len() == data.len() && forall|i: int|
            0 <= i < data.len() ==> #[trigger] v@[i] == (if 0x41 <= data[i] <= 0x5a {
                (data[i] + 0x20) as u8
            } else {
                data[i]
            }),
        state_after(c, tcph, data) == State::Estab,
{
}

} // verus!
