//! The on-the-wire form of the IPv4 and TCP headers this endpoint reads and
//! writes. Parsing, serialisation and checksums are done by `etherparse`;
//! the functions here are the library's window onto it.
use vstd::prelude::*;

verus! {

/// IP protocol number of TCP.
pub const IP_PROTOCOL_TCP: u8 = 6;

/// Length in bytes of an IPv4 header without options.
pub const IPV4_HEADER_LEN: usize = 20;

/// Length in bytes of a TCP header without options.
pub const TCP_HEADER_LEN: usize = 20;

/// An IPv4 header without options, with zero DSCP, ECN and fragment offset:
/// the headers this endpoint builds. The header checksum is not stored; it is
/// computed when the header is written.
#[derive(Clone, Copy, Debug, PartialEq, Eq)]
pub struct Ipv4HeaderFields {
    pub total_len: u16,
    pub identification: u16,
    pub dont_fragment: bool,
    pub more_fragments: bool,
    pub time_to_live: u8,
    pub protocol: u8,
    pub source: [u8; 4],
    pub destination: [u8; 4],
}

/// A TCP header without options, whose NS, PSH, URG, ECE and CWR flags are
/// clear and whose urgent pointer is zero: the headers this endpoint builds.
#[derive(Clone, Copy, Debug, PartialEq, Eq)]
pub struct TcpHeaderFields {
    pub source_port: u16,
    pub destination_port: u16,
    pub sequence_number: u32,
    pub acknowledgment_number: u32,
    pub fin: bool,
    pub syn: bool,
    pub rst: bool,
    pub ack: bool,
    pub window_size: u16,
    pub checksum: u16,
}

/// What the library reads of a received IPv4 header.
#[derive(Clone, Copy, Debug, PartialEq, Eq)]
pub struct Ipv4SliceInfo {
    /// Length of the header with its options, in bytes.
    pub header_len: usize,
    pub protocol: u8,
    pub source: [u8; 4],
    pub destination: [u8; 4],
}

/// What the library reads of a received TCP header.
#[derive(Clone, Copy, Debug, PartialEq, Eq)]
pub struct TcpSegmentInfo {
    /// Length of the header with its options, in bytes.
    pub header_len: usize,
    pub source_port: u16,
    pub destination_port: u16,
    pub sequence_number: u32,
    pub acknowledgment_number: u32,
    pub fin: bool,
    pub syn: bool,
    pub rst: bool,
    pub ack: bool,
    pub window_size: u16,
}

/// The error `set_payload_len` reports for a payload that does not fit the
/// 16-bit total length field.
#[derive(Clone, Copy, Debug, PartialEq, Eq)]
pub struct ValueTooBig {
    pub actual: usize,
    pub max_allowed: usize,
}

impl Ipv4HeaderFields {
    /// Sets the total length for a payload of `value` bytes after the
    /// header, as `etherparse::Ipv4Header::set_payload_len` does for a header
    /// without options: refused when the total would not fit 16 bits.
    pub fn set_payload_len(&mut self, value: usize) -> (r: Result<(), ValueTooBig>)
        ensures
            value <= 65535 - 20 ==> r is Ok && *final(self) == (Ipv4HeaderFields {
                total_len: (20 + value) as u16,
                ..*old(self)
            }),
            value > 65535 - 20 ==> r == Err::<(), ValueTooBig>(
                ValueTooBig { actual: value, max_allowed: 65515usize },
            ) && *final(self) == *old(self),
    {
        let max_allowed: usize = 65535 - 20;
        if value > max_allowed {
            Err(ValueTooBig { actual: value, max_allowed })
        } else {
            self.total_len = (IPV4_HEADER_LEN + value) as u16;
            Ok(())
        }
    }
}

impl TcpHeaderFields {
    /// Length of the header in bytes: 20, as it carries no options.
    pub fn header_len(&self) -> (r: usize)
        ensures
            r == 20,
    {
        TCP_HEADER_LEN
    }
}

/// Big-endian bytes of a 16-bit value.
pub open spec fn be16(x: u16) -> Seq<u8> {
    seq![(x / 0x100) as u8, (x % 0x100) as u8]
}

/// Big-endian bytes of a 32-bit value.
pub open spec fn be32(x: u32) -> Seq<u8> {
    seq![
        (x / 0x100_0000) as u8,
        ((x / 0x1_0000) % 0x100) as u8,
        ((x / 0x100) % 0x100) as u8,
        (x % 0x100) as u8,
    ]
}

/// The 16-bit big-endian value stored at `b[i]`, `b[i + 1]`.
pub open spec fn read_be16(b: Seq<u8>, i: int) -> u16 {
    (b[i] * 0x100 + b[i + 1]) as u16
}

/// The 32-bit big-endian value stored at `b[i]` .. `b[i + 3]`.
pub open spec fn read_be32(b: Seq<u8>, i: int) -> u32 {
    (b[i] * 0x100_0000 + b[i + 1] * 0x1_0000 + b[i + 2] * 0x100 + b[i + 3]) as u32
}

/// The flags byte (byte 13) of a TCP header.
pub open spec fn tcp_flags_byte(h: TcpHeaderFields) -> u8 {
    ((if h.fin { 1int } else { 0 }) + (if h.syn { 2int } else { 0 }) + (if h.rst { 4int } else { 0 })
        + (if h.ack { 16int } else { 0 })) as u8
}

/// The 20 bytes of a TCP header without options, as RFC 793 lays them out.
pub open spec fn tcp_header_layout(h: TcpHeaderFields) -> Seq<u8> {
    be16(h.source_port) + be16(h.destination_port) + be32(h.sequence_number) + be32(
        h.acknowledgment_number,
    ) + seq![0x50u8, tcp_flags_byte(h)] + be16(h.window_size) + be16(h.checksum) + be16(0)
}

/// The 20 bytes of an IPv4 header without options, as RFC 791 lays them out,
/// carrying the given header checksum.
pub open spec fn ipv4_header_layout(h: Ipv4HeaderFields, checksum: u16) -> Seq<u8> {
    seq![0x45u8, 0u8] + be16(h.total_len) + be16(h.identification) + seq![
        ((if h.dont_fragment { 64int } else { 0 }) + (if h.more_fragments { 32int } else { 0 })) as u8,
        0u8,
    ] + seq![h.time_to_live, h.protocol] + be16(checksum) + h.source@ + h.destination@
}

/// Two bytes laid out by `be16` read back as the value they came from.
pub proof fn lemma_read_be16(b: Seq<u8>, i: int, x: u16)
    requires
        0 <= i,
        i + 2 <= b.len(),
        b[i] == be16(x)[0],
        b[i + 1] == be16(x)[1],
    ensures
        read_be16(b, i) == x,
{
}

/// Four bytes laid out by `be32` read back as the value they came from.
pub proof fn lemma_read_be32(b: Seq<u8>, i: int, x: u32)
    requires
        0 <= i,
        i + 4 <= b.len(),
        b[i] == be32(x)[0],
        b[i + 1] == be32(x)[1],
        b[i + 2] == be32(x)[2],
        b[i + 3] == be32(x)[3],
    ensures
        read_be32(b, i) == x,
{
}

/// Whether `b` starts with an IPv4 header that `etherparse` accepts: version 4,
/// a header length of at least five words, and all of its bytes present.
pub open spec fn ipv4_header_parses(b: Seq<u8>) -> bool {
    &&& b.len() >= 20
    &&& b[0] / 16 == 4
    &&& b[0] % 16 >= 5
    &&& b.len() >= (b[0] % 16) * 4
}

/// The IPv4 header information read from `b`, where `ipv4_header_parses(b)`.
pub open spec fn ipv4_slice_info(b: Seq<u8>, info: Ipv4SliceInfo) -> bool {
    &&& info.header_len == (b[0] % 16) * 4
    &&& info.protocol == b[9]
    &&& info.source@ == b.subrange(12, 16)
    &&& info.destination@ == b.subrange(16, 20)
}

/// Whether `b` starts with a TCP header that `etherparse` accepts: a data
/// offset of at least five words and all of the header's bytes present.
pub open spec fn tcp_header_parses(b: Seq<u8>) -> bool {
    &&& b.len() >= 20
    &&& (b[12] / 16) * 4 >= 20
    &&& b.len() >= (b[12] / 16) * 4
}

/// The TCP header information read from `b`, where `tcp_header_parses(b)`.
pub open spec fn tcp_segment_info(b: Seq<u8>, info: TcpSegmentInfo) -> bool {
    &&& info.header_len == (b[12] / 16) * 4
    &&& info.source_port == read_be16(b, 0)
    &&& info.destination_port == read_be16(b, 2)
    &&& info.sequence_number == read_be32(b, 4)
    &&& info.acknowledgment_number == read_be32(b, 8)
    &&& info.fin == (b[13] % 2 == 1)
    &&& info.syn == ((b[13] / 2) % 2 == 1)
    &&& info.rst == ((b[13] / 4) % 2 == 1)
    &&& info.ack == ((b[13] / 16) % 2 == 1)
    &&& info.window_size == read_be16(b, 14)
}

/// The sum of the big-endian 16-bit words of `b`; an odd last byte counts
/// as a word whose low byte is zero (RFC 1071).
pub open spec fn word_sum(b: Seq<u8>) -> int
    decreases b.len(),
{
    if b.len() == 0 {
        0
    } else if b.len() == 1 {
        b[0] * 0x100
    } else {
        b[0] * 0x100 + b[1] + word_sum(b.subrange(2, b.len() as int))
    }
}

/// Whether bytes that carry an Internet checksum check out: their words add
/// up, in one's complement arithmetic, to all ones, that is, their sum is a
/// multiple of 0xffff (RFC 1071).
pub open spec fn checksum_valid(b: Seq<u8>) -> bool {
    word_sum(b) % 0xffff == 0
}

/// The IPv4 pseudo header that the TCP checksum covers (RFC 793): source and
/// destination address, a zero byte, the protocol number of TCP and the
/// length of the TCP segment.
pub open spec fn tcp_pseudo_header(source: Seq<u8>, destination: Seq<u8>, tcp_len: u16) -> Seq<u8> {
    source + destination + seq![0u8, IP_PROTOCOL_TCP] + be16(tcp_len)
}

/// The one's complement sum (RFC 1071) that a plain sum of 16-bit words
/// folds down to with end-around carries: 0 for 0, and otherwise the number
/// from 1 to 0xffff that is congruent to it modulo 0xffff.
pub open spec fn ones_complement_fold(sum: int) -> int {
    if sum == 0 {
        0
    } else {
        (sum - 1) % 0xffff + 1
    }
}

/// The Internet checksum of `b` (RFC 1071): the one's complement of the one's
/// complement sum of its 16-bit words.
pub open spec fn internet_checksum(b: Seq<u8>) -> u16 {
    (0xffff - ones_complement_fold(word_sum(b))) as u16
}

/// The IPv4 header checksum of a header (RFC 791): the Internet checksum of
/// the header with its checksum field set to zero.
pub open spec fn ipv4_header_checksum(header: Ipv4HeaderFields) -> u16 {
    internet_checksum(ipv4_header_layout(header, 0))
}

/// The TCP checksum of a header and payload sent between two IPv4 addresses
/// (RFC 793): the Internet checksum of the pseudo header, the header with its
/// checksum field set to zero, and the payload.
pub open spec fn tcp_checksum_ipv4(
    header: TcpHeaderFields,
    source: Seq<u8>,
    destination: Seq<u8>,
    payload: Seq<u8>,
) -> u16 {
    internet_checksum(
        tcp_pseudo_header(source, destination, (20 + payload.len()) as u16) + tcp_header_layout(
            TcpHeaderFields { checksum: 0, ..header },
        ) + payload,
    )
}

/// The message `etherparse` gives for the bytes `TcpHeaderSlice::from_slice`
/// refuses (the `Display` text of its `HeaderSliceError`). It depends on the
/// bytes alone.
pub uninterp spec fn tcp_header_slice_error(bytes: Seq<u8>) -> Seq<char>;

/// Word sums of byte strings add up when the first has even length.
pub proof fn lemma_word_sum_concat(a: Seq<u8>, b: Seq<u8>)
    requires
        a.len() % 2 == 0,
    ensures
        word_sum(a + b) == word_sum(a) + word_sum(b),
    decreases a.len(),
{
    if a.len() == 0 {
        assert(a + b =~= b);
    } else {
        let rest = a.subrange(2, a.len() as int);
        assert((a + b).subrange(2, (a + b).len() as int) =~= rest + b);
        lemma_word_sum_concat(rest, b);
    }
}

/// The word sum of two bytes laid out by `be16` is the value they came from.
pub proof fn lemma_word_sum_be16(x: u16)
    ensures
        word_sum(be16(x)) == x,
{
    let b = be16(x);
    assert(b.subrange(2, 2) =~= Seq::<u8>::empty());
    assert(word_sum(b.subrange(2, 2)) == 0);
    assert(word_sum(b) == b[0] * 0x100 + b[1]);
}

/// Word sums are never negative.
pub proof fn lemma_word_sum_nonneg(b: Seq<u8>)
    ensures
        word_sum(b) >= 0,
    decreases b.len(),
{
    if b.len() >= 2 {
        lemma_word_sum_nonneg(b.subrange(2, b.len() as int));
    }
}

/// A word sum and the Internet checksum of the words it sums add up to a
/// multiple of 0xffff.
proof fn lemma_fold_complement(sum: int)
    requires
        sum >= 0,
    ensures
        (sum + (0xffff - ones_complement_fold(sum))) % 0xffff == 0,
        0 <= 0xffff - ones_complement_fold(sum) <= 0xffff,
{
}

/// An IPv4 header carrying its header checksum checks out.
pub proof fn lemma_ipv4_header_checksum_valid(h: Ipv4HeaderFields)
    ensures
        checksum_valid(ipv4_header_layout(h, ipv4_header_checksum(h))),
{
    let p = seq![0x45u8, 0u8] + be16(h.total_len) + be16(h.identification) + seq![
        ((if h.dont_fragment { 64int } else { 0 }) + (if h.more_fragments { 32int } else { 0 })) as u8,
        0u8,
    ] + seq![h.time_to_live, h.protocol];
    assert(p.len() == 10);
    assert(h.source@.len() == 4);
    let zero = ipv4_header_layout(h, 0);
    let c = ipv4_header_checksum(h);
    let full = ipv4_header_layout(h, c);
    assert(zero == p + be16(0) + h.source@ + h.destination@);
    assert(full == p + be16(c) + h.source@ + h.destination@);
    lemma_word_sum_concat(p + be16(0) + h.source@, h.destination@);
    lemma_word_sum_concat(p + be16(0), h.source@);
    lemma_word_sum_concat(p, be16(0));
    lemma_word_sum_concat(p + be16(c) + h.source@, h.destination@);
    lemma_word_sum_concat(p + be16(c), h.source@);
    lemma_word_sum_concat(p, be16(c));
    lemma_word_sum_be16(0);
    lemma_word_sum_be16(c);
    lemma_word_sum_nonneg(zero);
    lemma_fold_complement(word_sum(zero));
}

/// A TCP segment carrying its checksum checks out under its pseudo header.
pub proof fn lemma_tcp_checksum_valid(
    h: TcpHeaderFields,
    source: Seq<u8>,
    destination: Seq<u8>,
    payload: Seq<u8>,
)
    requires
        source.len() == 4,
        destination.len() == 4,
    ensures
        checksum_valid(
            tcp_pseudo_header(source, destination, (20 + payload.len()) as u16) + tcp_header_layout(
                TcpHeaderFields { checksum: tcp_checksum_ipv4(h, source, destination, payload), ..h },
            ) + payload,
        ),
{
    let ph = tcp_pseudo_header(source, destination, (20 + payload.len()) as u16);
    assert(ph.len() == 12);
    let q = be16(h.source_port) + be16(h.destination_port) + be32(h.sequence_number) + be32(
        h.acknowledgment_number,
    ) + seq![0x50u8, tcp_flags_byte(h)] + be16(h.window_size);
    assert(q.len() == 16);
    let c = tcp_checksum_ipv4(h, source, destination, payload);
    let zero = tcp_header_layout(TcpHeaderFields { checksum: 0, ..h });
    let full = tcp_header_layout(TcpHeaderFields { checksum: c, ..h });
    assert(zero == q + be16(0) + be16(0));
    assert(full == q + be16(c) + be16(0));
    lemma_word_sum_concat(ph + zero, payload);
    lemma_word_sum_concat(ph, zero);
    lemma_word_sum_concat(q + be16(0), be16(0));
    lemma_word_sum_concat(q, be16(0));
    lemma_word_sum_concat(ph + full, payload);
    lemma_word_sum_concat(ph, full);
    lemma_word_sum_concat(q + be16(c), be16(0));
    lemma_word_sum_concat(q, be16(c));
    lemma_word_sum_be16(0);
    lemma_word_sum_be16(c);
    lemma_word_sum_nonneg(ph + zero + payload);
    lemma_fold_complement(word_sum(ph + zero + payload));
}

/// `etherparse::Ipv4Header::new`, read back into the library's model.
/// Claimed: the call succeeds exactly when `payload_len` is at most
/// 65535 - 20, and then yields a header with total length `payload_len + 20`,
/// identification 0, "don't fragment" set, "more fragments" clear and the
/// given time to live, protocol and addresses (and zero DSCP, ECN, fragment
/// offset and no options, which the model does not hold).
#[verifier::external_body]
pub(crate) fn etherparse_ipv4_new(
    payload_len: u16,
    time_to_live: u8,
    protocol: u8,
    source: [u8; 4],
    destination: [u8; 4],
) -> (r: Option<Ipv4HeaderFields>)
    ensures
        r is Some <==> payload_len <= 65535 - 20,
        r matches Some(h) ==> {
            &&& h.total_len == payload_len + 20
            &&& h.identification == 0
            &&& h.dont_fragment
            &&& !h.more_fragments
            &&& h.time_to_live == time_to_live
            &&& h.protocol == protocol
            &&& h.source == source
            &&& h.destination == destination
        },
{
    let p = etherparse::IpNumber(protocol);
    match etherparse::Ipv4Header::new(payload_len, time_to_live, p, source, destination) {
        Ok(h) => Some(Ipv4HeaderFields {
            total_len: h.total_len, identification: h.identification,
            dont_fragment: h.dont_fragment, more_fragments: h.more_fragments,
            time_to_live: h.time_to_live, protocol: h.protocol.0,
            source: h.source, destination: h.destination,
        }),
        Err(_) => None,
    }
}

/// `etherparse::Ipv4Header::write` of the modelled header into a fresh buffer.
/// Claimed: the bytes written are the RFC 791 layout of the header without
/// options, carrying the checksum that `calc_header_checksum` computes: the
/// RFC 791 header checksum, `ipv4_header_checksum`. Writing into a `Vec` does
/// not fail.
#[verifier::external_body]
pub(crate) fn etherparse_ipv4_write(h: &Ipv4HeaderFields) -> (r: Vec<u8>)
    ensures
        r@ == ipv4_header_layout(*h, ipv4_header_checksum(*h)),
{
    let header = etherparse::Ipv4Header {
        total_len: h.total_len, identification: h.identification,
        dont_fragment: h.dont_fragment, more_fragments: h.more_fragments,
        time_to_live: h.time_to_live, protocol: etherparse::IpNumber(h.protocol),
        source: h.source, destination: h.destination, ..Default::default()
    };
    let mut out: Vec<u8> = Vec::with_capacity(IPV4_HEADER_LEN);
    header.write(&mut out).expect("writing into a Vec does not fail");
    out
}

/// `etherparse::TcpHeader::new`, read back into the library's model.
/// Claimed: the header has the given ports, sequence number and window size,
/// acknowledgment number 0, all flags clear and checksum 0 (and no options and
/// a zero urgent pointer, which the model does not hold).
#[verifier::external_body]
pub(crate) fn etherparse_tcp_new(
    source_port: u16,
    destination_port: u16,
    sequence_number: u32,
    window_size: u16,
) -> (r: TcpHeaderFields)
    ensures
        r == (TcpHeaderFields {
            source_port,
            destination_port,
            sequence_number,
            acknowledgment_number: 0,
            fin: false,
            syn: false,
            rst: false,
            ack: false,
            window_size,
            checksum: 0,
        }),
{
    let t = etherparse::TcpHeader::new(source_port, destination_port, sequence_number, window_size);
    TcpHeaderFields {
        source_port: t.source_port, destination_port: t.destination_port,
        sequence_number: t.sequence_number, acknowledgment_number: t.acknowledgment_number,
        fin: t.fin, syn: t.syn, rst: t.rst, ack: t.ack,
        window_size: t.window_size, checksum: t.checksum,
    }
}

/// `etherparse::TcpHeader::calc_checksum_ipv4` for the modelled header sent
/// inside the modelled IPv4 header with the given payload.
/// Claimed: it fails exactly when the payload is longer than 65535 minus the
/// header length (20); otherwise it yields the RFC 793 checksum over the
/// pseudo header, the header without its checksum field and the payload,
/// `tcp_checksum_ipv4`, which only the IPv4 addresses of the IP header enter.
#[verifier::external_body]
pub(crate) fn etherparse_tcp_checksum_ipv4(
    h: &TcpHeaderFields,
    ip: &Ipv4HeaderFields,
    payload: &[u8],
) -> (r: Option<u16>)
    ensures
        r is Some <==> payload@.len() <= 65535 - 20,
        r matches Some(c) ==> c == tcp_checksum_ipv4(*h, ip.source@, ip.destination@, payload@),
{
    let t = etherparse::TcpHeader {
        source_port: h.source_port, destination_port: h.destination_port,
        sequence_number: h.sequence_number, acknowledgment_number: h.acknowledgment_number,
        fin: h.fin, syn: h.syn, rst: h.rst, ack: h.ack,
        window_size: h.window_size, checksum: h.checksum, ..Default::default()
    };
    let iph = etherparse::Ipv4Header { source: ip.source, destination: ip.destination, ..Default::default() };
    t.calc_checksum_ipv4(&iph, payload).ok()
}

/// `etherparse::TcpHeader::write` of the modelled header into a fresh buffer.
/// Claimed: the bytes written are the RFC 793 layout of the header without
/// options, with the stored checksum (it is not recomputed). Writing into a
/// `Vec` does not fail.
#[verifier::external_body]
pub(crate) fn etherparse_tcp_write(h: &TcpHeaderFields) -> (r: Vec<u8>)
    ensures
        r@ == tcp_header_layout(*h),
{
    let t = etherparse::TcpHeader {
        source_port: h.source_port, destination_port: h.destination_port,
        sequence_number: h.sequence_number, acknowledgment_number: h.acknowledgment_number,
        fin: h.fin, syn: h.syn, rst: h.rst, ack: h.ack,
        window_size: h.window_size, checksum: h.checksum, ..Default::default()
    };
    let mut out: Vec<u8> = Vec::with_capacity(TCP_HEADER_LEN);
    t.write(&mut out).expect("writing into a Vec does not fail");
    out
}

/// `etherparse::Ipv4HeaderSlice::from_slice`, with the fields the library reads.
/// Claimed: it succeeds exactly when `ipv4_header_parses` holds of the bytes,
/// and then reads the header length from the IHL nibble, the protocol from
/// byte 9 and the addresses from bytes 12..16 and 16..20.
#[verifier::external_body]
pub(crate) fn etherparse_ipv4_slice(bytes: &[u8]) -> (r: Option<Ipv4SliceInfo>)
    ensures
        r is Some <==> ipv4_header_parses(bytes@),
        r matches Some(info) ==> ipv4_slice_info(bytes@, info),
{
    match etherparse::Ipv4HeaderSlice::from_slice(bytes) {
        Ok(s) => Some(Ipv4SliceInfo {
            header_len: s.slice().len(), protocol: s.protocol().0,
            source: s.source(), destination: s.destination(),
        }),
        Err(_) => None,
    }
}

/// `etherparse::TcpHeaderSlice::from_slice`, with the fields the library reads.
/// Claimed: it succeeds exactly when `tcp_header_parses` holds of the bytes,
/// and then reads the fields at their RFC 793 offsets, big-endian. On failure
/// the error's message is returned, named `tcp_header_slice_error`.
#[verifier::external_body]
pub(crate) fn etherparse_tcp_slice(bytes: &[u8]) -> (r: Result<TcpSegmentInfo, String>)
    ensures
        r is Ok <==> tcp_header_parses(bytes@),
        r matches Ok(info) ==> tcp_segment_info(bytes@, info),
        r matches Err(e) ==> e@ == tcp_header_slice_error(bytes@),
{
    match etherparse::TcpHeaderSlice::from_slice(bytes) {
        Ok(s) => Ok(TcpSegmentInfo {
            header_len: s.slice().len(), source_port: s.source_port(),
            destination_port: s.destination_port(), sequence_number: s.sequence_number(),
            acknowledgment_number: s.acknowledgment_number(), fin: s.fin(), syn: s.syn(),
            rst: s.rst(), ack: s.ack(), window_size: s.window_size(),
        }),
        Err(e) => Err(format!("{}", e)),
    }
}

} // verus!
