use tcp_tun::{wrapped_cmp_lt, State};
use tcp_tun::connection::segment_len;

#[test]
fn between_in_plain_interval() {
    assert!(wrapped_cmp_lt(10, 11, 20));
    assert!(wrapped_cmp_lt(10, 19, 20));
    assert!(!wrapped_cmp_lt(10, 10, 20));
    assert!(!wrapped_cmp_lt(10, 20, 20));
    assert!(!wrapped_cmp_lt(10, 5, 20));
    assert!(!wrapped_cmp_lt(10, 25, 20));
}

#[test]
fn between_across_the_wrap() {
    // the interval (2^32 - 16, 10) holds the numbers around zero
    assert!(wrapped_cmp_lt(0xffff_fff0, 0xffff_ffff, 10));
    assert!(wrapped_cmp_lt(0xffff_fff0, 0, 10));
    assert!(wrapped_cmp_lt(0xffff_fff0, 3, 10));
    assert!(!wrapped_cmp_lt(0xffff_fff0, 10, 10));
    assert!(!wrapped_cmp_lt(0xffff_fff0, 0xffff_fff0, 10));
    assert!(!wrapped_cmp_lt(0xffff_fff0, 100, 10));
}

#[test]
fn between_empty_when_ends_meet() {
    assert!(!wrapped_cmp_lt(5, 7, 5));
    assert!(!wrapped_cmp_lt(5, 5, 5));
}

#[test]
fn between_unchanged_by_shift() {
    // the same relative positions, once in the middle of the space and once across its wrap
    for k in [0u32, 100, 0xffff_ff00, 0xffff_fffe] {
        assert_eq!(
            wrapped_cmp_lt(1000u32.wrapping_add(k), 1005u32.wrapping_add(k), 1010u32.wrapping_add(k)),
            true
        );
        assert_eq!(
            wrapped_cmp_lt(1000u32.wrapping_add(k), 1010u32.wrapping_add(k), 1010u32.wrapping_add(k)),
            false
        );
    }
}

#[test]
fn synchronized_states() {
    assert!(!State::SynRcvd.is_state_syncronized());
    assert!(State::Estab.is_state_syncronized());
}

#[test]
fn segment_length_counts_syn_and_fin() {
    assert_eq!(segment_len(0, false, false), 0);
    assert_eq!(segment_len(0, true, false), 1);
    assert_eq!(segment_len(5, true, true), 7);
    assert_eq!(segment_len(1460, false, true), 1461);
}
