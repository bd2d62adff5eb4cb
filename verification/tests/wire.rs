use tcp_tun::wire::{Ipv4HeaderFields, TcpHeaderFields, ValueTooBig};
use tcp_tun::TcpHeaderInfo;

fn header() -> Ipv4HeaderFields {
    Ipv4HeaderFields {
        total_len: 20,
        identification: 0,
        dont_fragment: true,
        more_fragments: false,
        time_to_live: 64,
        protocol: 6,
        source: [1, 2, 3, 4],
        destination: [5, 6, 7, 8],
    }
}

#[test]
fn payload_length_sets_total_length() {
    let mut h = header();
    assert_eq!(h.set_payload_len(20), Ok(()));
    assert_eq!(h.total_len, 40);
    assert_eq!(h.set_payload_len(65515), Ok(()));
    assert_eq!(h.total_len, 65535);
}

#[test]
fn payload_length_too_big_is_refused() {
    let mut h = header();
    assert_eq!(h.set_payload_len(65516), Err(ValueTooBig { actual: 65516, max_allowed: 65515 }));
    assert_eq!(h, header());
}

#[test]
fn header_info_builds_plain_header() {
    let info = TcpHeaderInfo::new(80, 40000, 64, 10);
    assert_eq!(info.src, 80);
    assert_eq!(info.dst, 40000);
    assert_eq!(info.seq_number, 64);
    assert_eq!(info.wnd, 10);
    let h = info.build();
    assert_eq!(
        h,
        TcpHeaderFields {
            source_port: 80,
            destination_port: 40000,
            sequence_number: 64,
            acknowledgment_number: 0,
            fin: false,
            syn: false,
            rst: false,
            ack: false,
            window_size: 10,
            checksum: 0,
        }
    );
    assert_eq!(h.header_len(), 20);
}
