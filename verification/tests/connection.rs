use tcp_tun::connection::{ascii_lowercase, INITIAL_SEQUENCE_NUMBER, INITIAL_WINDOW};
use tcp_tun::wire::{Ipv4SliceInfo, TcpSegmentInfo};
use tcp_tun::{Connection, PacketOutcome, ReciverSequenceSpace, SenderSequenceSpace, State, TcpHeaderInfo};

fn ip_info() -> Ipv4SliceInfo {
    Ipv4SliceInfo { header_len: 20, protocol: 6, source: [10, 0, 0, 2], destination: [10, 0, 0, 1] }
}

fn segment(seq: u32, ack_number: u32, syn: bool, ack: bool, window: u16) -> TcpSegmentInfo {
    TcpSegmentInfo {
        header_len: 20,
        source_port: 40000,
        destination_port: 80,
        sequence_number: seq,
        acknowledgment_number: ack_number,
        fin: false,
        syn,
        rst: false,
        ack,
        window_size: window,
    }
}

fn accepted(seq: u32, window: u16) -> (Connection, Vec<u8>) {
    Connection::accept(&ip_info(), &segment(seq, 0, true, false, window), &[]).unwrap().unwrap()
}

fn be_sum(words: &[u8]) -> u32 {
    let mut sum: u32 = 0;
    for pair in words.chunks(2) {
        let hi = pair[0] as u32;
        let lo = if pair.len() > 1 { pair[1] as u32 } else { 0 };
        sum += (hi << 8) | lo;
    }
    while sum > 0xffff {
        sum = (sum & 0xffff) + (sum >> 16);
    }
    sum
}

#[test]
fn accept_refuses_segment_without_syn() {
    let r = Connection::accept(&ip_info(), &segment(1000, 0, false, true, 1024), &[]);
    assert_eq!(r, Err("syn not exist".to_string()));
}

#[test]
fn accept_opens_connection_in_syn_received() {
    let (c, _) = accepted(1000, 1024);
    assert_eq!(c.state, State::SynRcvd);
    assert_eq!(
        c.send,
        SenderSequenceSpace { una: 64, nxt: 65, wnd: 10, up: false, wl1: 0, wl2: 0, iss: 64 }
    );
    assert_eq!(c.recv, ReciverSequenceSpace { nxt: 1001, wnd: 1024, up: false, irs: 1000 });
    assert_eq!(c.tcpi, TcpHeaderInfo::new(80, 40000, INITIAL_SEQUENCE_NUMBER, INITIAL_WINDOW));
    assert_eq!(c.iph.source, [10, 0, 0, 1]);
    assert_eq!(c.iph.destination, [10, 0, 0, 2]);
    assert_eq!(c.iph.total_len, 40);
    assert_eq!(c.iph.time_to_live, 64);
    assert_eq!(c.iph.protocol, 6);
}

#[test]
fn accept_answers_with_syn_ack() {
    let (_, reply) = accepted(1000, 1024);
    assert_eq!(reply.len(), 40);
    // IPv4 header: version 4, IHL 5, total length 40, don't fragment, TTL 64, TCP
    assert_eq!(&reply[0..10], &[0x45, 0, 0, 40, 0, 0, 0x40, 0, 64, 6]);
    assert_eq!(&reply[12..16], &[10, 0, 0, 1]);
    assert_eq!(&reply[16..20], &[10, 0, 0, 2]);
    // TCP header: ports swapped, seq 64, ack 1001, data offset 5, SYN+ACK, window 10
    assert_eq!(&reply[20..24], &[0, 80, 0x9c, 0x40]);
    assert_eq!(&reply[24..28], &[0, 0, 0, 64]);
    assert_eq!(&reply[28..32], &[0, 0, 0x03, 0xe9]);
    assert_eq!(reply[32], 0x50);
    assert_eq!(reply[33], 0x12);
    assert_eq!(&reply[34..36], &[0, 10]);
    assert_eq!(&reply[38..40], &[0, 0]);
}

#[test]
fn accept_reply_checksums_are_valid() {
    let (_, reply) = accepted(1000, 1024);
    // the IPv4 header sums to all ones
    assert_eq!(be_sum(&reply[0..20]), 0xffff);
    assert_ne!(&reply[10..12], &[0, 0]);
    // the TCP segment with its pseudo header sums to all ones
    let mut pseudo = Vec::new();
    pseudo.extend_from_slice(&reply[12..20]);
    pseudo.extend_from_slice(&[0, 6, 0, 20]);
    pseudo.extend_from_slice(&reply[20..40]);
    assert_eq!(be_sum(&pseudo), 0xffff);
    assert_ne!(&reply[36..38], &[0, 0]);
}

#[test]
fn handshake_completes_on_ack_of_syn_ack() {
    let (mut c, _) = accepted(1000, 1024);
    let r = c.on_packet(&segment(1001, 65, false, true, 1024), &[]);
    assert_eq!(r, PacketOutcome::Established);
    assert_eq!(c.state, State::Estab);
    assert_eq!(c.send.una, 64);
    assert_eq!(c.recv.nxt, 1001);
}

#[test]
fn handshake_completes_with_closed_window() {
    let (mut c, _) = accepted(1000, 0);
    assert_eq!(c.on_packet(&segment(1001, 65, false, true, 0), &[]), PacketOutcome::Established);
    assert_eq!(c.state, State::Estab);
}

#[test]
fn unacceptable_ack_before_synchronization_asks_for_reset() {
    let (mut c, _) = accepted(1000, 1024);
    let before = c;
    let r = c.on_packet(&segment(1001, 64, false, true, 1024), &[]);
    assert_eq!(r, PacketOutcome::UnacceptableAck { reset: true, send: before.send, ack: 64 });
    assert_eq!(c, before);
    let r = c.on_packet(&segment(1001, 66, false, true, 1024), &[]);
    assert_eq!(r, PacketOutcome::UnacceptableAck { reset: true, send: before.send, ack: 66 });
}

#[test]
fn unacceptable_ack_after_synchronization_asks_no_reset() {
    let (mut c, _) = accepted(1000, 1024);
    c.on_packet(&segment(1001, 65, false, true, 1024), &[]);
    let r = c.on_packet(&segment(1001, 70, false, true, 1024), &[]);
    assert_eq!(r, PacketOutcome::UnacceptableAck { reset: false, send: c.send, ack: 70 });
    assert_eq!(c.state, State::Estab);
}

#[test]
fn unacceptable_sequence_number_is_dropped() {
    let (mut c, _) = accepted(1000, 1024);
    let before = c;
    // below the window
    let r = c.on_packet(&segment(1000, 65, false, true, 1024), &[]);
    assert_eq!(r, PacketOutcome::UnacceptableSeq { recv: before.recv, seq: 1000, data_len: 0 });
    // beyond the window
    let r = c.on_packet(&segment(1001 + 1024, 65, false, true, 1024), &[]);
    assert_eq!(r, PacketOutcome::UnacceptableSeq { recv: before.recv, seq: 2025, data_len: 0 });
    assert_eq!(c, before);
}

#[test]
fn segment_without_ack_waits_in_syn_received() {
    let (mut c, _) = accepted(1000, 1024);
    assert_eq!(c.on_packet(&segment(1001, 65, false, false, 1024), &[]), PacketOutcome::AwaitingAck);
    assert_eq!(c.state, State::SynRcvd);
}

#[test]
fn established_connection_hands_on_lowercased_data() {
    let (mut c, _) = accepted(1000, 1024);
    c.on_packet(&segment(1001, 65, false, true, 1024), &[]);
    let r = c.on_packet(&segment(1001, 65, false, true, 1024), b"Hello, World!");
    assert_eq!(r, PacketOutcome::Data(b"hello, world!".to_vec()));
    assert_eq!(c.state, State::Estab);
}

#[test]
fn ack_validity_follows_send_space() {
    let (c, _) = accepted(1000, 1024);
    assert!(!c.is_ack_valid(64));
    assert!(c.is_ack_valid(65));
    assert!(!c.is_ack_valid(66));
    assert!(!c.is_ack_valid(0));
}

#[test]
fn ack_validity_across_the_wrap() {
    let (mut c, _) = accepted(1000, 1024);
    c.send.una = 0xffff_fff0;
    c.send.nxt = 0x10;
    assert!(c.is_ack_valid(0xffff_fff1));
    assert!(c.is_ack_valid(0));
    assert!(c.is_ack_valid(0x10));
    assert!(!c.is_ack_valid(0xffff_fff0));
    assert!(!c.is_ack_valid(0x11));
}

#[test]
fn seq_validity_four_cases() {
    let (mut c, _) = accepted(999, 0);
    // closed window: only an empty segment at RCV.NXT
    assert!(c.is_seq_valid(1000, 0));
    assert!(!c.is_seq_valid(1001, 0));
    assert!(!c.is_seq_valid(1000, 1));
    // open window [1000, 1010)
    c.recv.wnd = 10;
    assert!(c.is_seq_valid(1000, 0));
    assert!(c.is_seq_valid(1009, 0));
    assert!(!c.is_seq_valid(1010, 0));
    assert!(!c.is_seq_valid(999, 0));
    // a segment that starts before the window but ends inside it
    assert!(c.is_seq_valid(995, 6));
    assert!(!c.is_seq_valid(995, 5));
    // a segment that starts inside the window
    assert!(c.is_seq_valid(1009, 100));
}

#[test]
fn seq_validity_across_the_wrap() {
    let (mut c, _) = accepted(0xffff_fffa, 10);
    assert_eq!(c.recv.nxt, 0xffff_fffb);
    assert!(c.is_seq_valid(0xffff_fffb, 0));
    assert!(c.is_seq_valid(0, 0));
    assert!(c.is_seq_valid(4, 0));
    assert!(!c.is_seq_valid(5, 0));
    assert!(!c.is_seq_valid(0xffff_fffa, 0));
    assert!(c.is_seq_valid(0xffff_fff0, 12));
    c.recv.wnd = 0;
    assert!(c.is_seq_valid(0xffff_fffb, 0));
}

#[test]
fn lowercase_only_touches_ascii_letters() {
    assert_eq!(ascii_lowercase(b"ABC xyz 09 [@]"), b"abc xyz 09 [@]".to_vec());
    assert_eq!(ascii_lowercase(&[0xc4, 0x41, 0x5a, 0x5b]), vec![0xc4, 0x61, 0x7a, 0x5b]);
    assert_eq!(ascii_lowercase(&[]), Vec::<u8>::new());
}

#[test]
fn accept_reply_checksums_equal_rfc_1071_values() {
    let (_, reply) = accepted(1000, 1024);
    let mut ip = reply[0..20].to_vec();
    ip[10] = 0;
    ip[11] = 0;
    let ip_checksum = 0xffff - be_sum(&ip);
    assert_eq!(&reply[10..12], &[(ip_checksum >> 8) as u8, ip_checksum as u8]);
    let mut seg = Vec::new();
    seg.extend_from_slice(&reply[12..20]);
    seg.extend_from_slice(&[0, 6, 0, 20]);
    seg.extend_from_slice(&reply[20..40]);
    seg[12 + 16] = 0;
    seg[12 + 17] = 0;
    let tcp_checksum = 0xffff - be_sum(&seg);
    assert_eq!(&reply[36..38], &[(tcp_checksum >> 8) as u8, tcp_checksum as u8]);
}
