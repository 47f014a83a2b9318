use muonfp::fingerprint::{
    compose_signature, extract_tcp_options, is_syn_packet, render_kinds, window_size,
};
use muonfp::options::{decode_tcp_options, options_end, TcpOptions};

const FIN: u8 = 0x01;
const SYN: u8 = 0x02;
const RST: u8 = 0x04;
const PSH: u8 = 0x08;
const ACK: u8 = 0x10;

/// A TCP segment with the given data offset (in words), flags, window and
/// the bytes that follow the fixed header.
fn segment(words: u8, flags: u8, window: u16, rest: &[u8]) -> Vec<u8> {
    let mut s = vec![0u8; 20];
    s[0] = 0xc3;
    s[1] = 0x50;
    s[3] = 80;
    s[12] = words << 4;
    s[13] = flags;
    s[14] = (window >> 8) as u8;
    s[15] = (window & 0xff) as u8;
    s.extend_from_slice(rest);
    s
}

fn texts(seg: &[u8]) -> (String, String, String) {
    extract_tcp_options(seg)
}

fn expect(seg: &[u8], options: &str, mss: &str, window_scale: &str) {
    let (o, m, w) = texts(seg);
    assert_eq!(o, options);
    assert_eq!(m, mss);
    assert_eq!(w, window_scale);
}

#[test]
fn linux_syn_options_decode() {
    let options = [
        0x02, 0x04, 0x05, 0xb4, 0x01, 0x03, 0x03, 0x07, 0x01, 0x01, 0x08, 0x0a, 0x00, 0x11, 0x22,
        0x33, 0x00, 0x00, 0x00, 0x00,
    ];
    let seg = segment(10, SYN, 29200, &options);
    expect(&seg, "2-1-3-1-1-8", "1460", "7");
    assert_eq!(window_size(&seg), 29200);
    let decoded = decode_tcp_options(&seg);
    assert_eq!(
        decoded,
        TcpOptions { kinds: vec![2, 1, 3, 1, 1, 8], mss: Some(1460), window_scale: Some(7) }
    );
}

#[test]
fn header_of_twenty_bytes_has_no_options() {
    let seg = segment(5, SYN, 1024, &[]);
    expect(&seg, "", "", "");
    assert_eq!(options_end(&seg), 20);
}

#[test]
fn bytes_behind_the_header_are_not_options() {
    let seg = segment(5, SYN, 1024, &[2, 4, 5, 0xb4]);
    expect(&seg, "", "", "");
}

#[test]
fn header_length_below_twenty_has_no_options() {
    for words in 0..5u8 {
        let seg = segment(words, SYN, 1024, &[2, 4, 5, 0xb4, 1, 1, 1, 1]);
        expect(&seg, "", "", "");
    }
}

#[test]
fn header_length_beyond_the_segment_is_cut() {
    let seg = segment(15, SYN, 1024, &[2, 4, 5, 0xb4, 1]);
    assert_eq!(options_end(&seg), 25);
    expect(&seg, "2-1", "1460", "");
}

#[test]
fn short_segments_have_no_options() {
    expect(&[], "", "", "");
    expect(&[0u8; 12], "", "", "");
    expect(&[0xffu8; 13], "", "", "");
    expect(&[0xffu8; 19], "", "", "");
    expect(&[0xffu8; 20], "", "", "");
}

#[test]
fn end_of_options_stops_the_walk() {
    let seg = segment(7, SYN, 1024, &[1, 0, 2, 4, 5, 0xb4, 1, 1]);
    expect(&seg, "1-0", "", "");
}

#[test]
fn mss_cut_off_keeps_its_kind_and_leaves_the_value_out() {
    let seg = segment(6, SYN, 1024, &[1, 2, 4, 5]);
    expect(&seg, "1-2", "", "");
    let seg = segment(6, SYN, 1024, &[1, 1, 1, 2]);
    expect(&seg, "1-1-1-2", "", "");
}

#[test]
fn window_scale_cut_off_keeps_its_kind_and_leaves_the_value_out() {
    let seg = segment(6, SYN, 1024, &[1, 1, 3, 3]);
    expect(&seg, "1-1-3", "", "");
    let seg = segment(6, SYN, 1024, &[1, 3, 3, 9]);
    expect(&seg, "1-3", "", "9");
}

#[test]
fn mss_and_window_scale_ignore_their_length_byte() {
    let seg = segment(7, SYN, 1024, &[2, 0, 0x12, 0x34, 3, 200, 5, 1]);
    expect(&seg, "2-3-1", "4660", "5");
}

#[test]
fn the_last_complete_value_wins() {
    let seg = segment(8, SYN, 1024, &[2, 4, 0, 100, 2, 4, 0, 200, 3, 3, 1, 3]);
    expect(&seg, "2-2-3-3", "200", "1");
    let seg = segment(7, SYN, 1024, &[2, 4, 0, 100, 1, 2, 4, 0]);
    expect(&seg, "2-1-2", "100", "");
}

#[test]
fn unknown_kind_advances_by_its_length() {
    let seg = segment(8, SYN, 1024, &[8, 10, 0, 0, 0, 0, 0, 0, 0, 0, 4, 2]);
    expect(&seg, "8-4", "", "");
    let seg = segment(7, SYN, 1024, &[254, 3, 2, 4, 2, 0xff, 0xff, 1]);
    expect(&seg, "254-4-255", "", "");
}

#[test]
fn unknown_kind_with_length_below_two_stops_the_walk() {
    let seg = segment(7, SYN, 1024, &[1, 5, 0, 2, 4, 5, 0xb4, 1]);
    expect(&seg, "1-5", "", "");
    let seg = segment(7, SYN, 1024, &[1, 5, 1, 2, 4, 5, 0xb4, 1]);
    expect(&seg, "1-5", "", "");
}

#[test]
fn unknown_kind_without_length_byte_stops_the_walk() {
    let seg = segment(6, SYN, 1024, &[1, 1, 1, 19]);
    expect(&seg, "1-1-1-19", "", "");
}

#[test]
fn unknown_kind_may_run_past_the_region() {
    let seg = segment(6, SYN, 1024, &[30, 200, 1, 1]);
    expect(&seg, "30", "", "");
}

#[test]
fn every_header_length_is_decoded_without_panic() {
    for words in 0..16u8 {
        for len in 0..70usize {
            for fill in [0u8, 1, 2, 3, 4, 8, 255] {
                let mut seg = vec![fill; len];
                if len > 12 {
                    seg[12] = words << 4;
                }
                let (options, _, _) = extract_tcp_options(&seg);
                let end = options_end(&seg);
                assert!(end >= 20);
                assert!(end == 20 || end <= len);
                if end == 20 {
                    assert_eq!(options, "");
                }
            }
        }
    }
}

#[test]
fn inbound_bare_syn_is_eligible() {
    assert!(is_syn_packet(SYN, true));
    assert!(is_syn_packet(SYN | PSH, true));
    assert!(!is_syn_packet(SYN | ACK, true));
    assert!(!is_syn_packet(ACK, true));
    assert!(!is_syn_packet(FIN, true));
    assert!(!is_syn_packet(RST, true));
    assert!(!is_syn_packet(0, true));
}

#[test]
fn outbound_syn_ack_is_eligible() {
    assert!(is_syn_packet(SYN | ACK, false));
    assert!(!is_syn_packet(SYN, false));
    assert!(!is_syn_packet(ACK, false));
    assert!(!is_syn_packet(FIN | ACK, false));
    assert!(!is_syn_packet(RST, false));
    assert!(!is_syn_packet(0, false));
}

#[test]
fn eligibility_goes_by_syn_and_ack_alone() {
    for flags in 0..=255u8 {
        let syn = flags & 0x02 != 0;
        let ack = flags & 0x10 != 0;
        assert_eq!(is_syn_packet(flags, true), syn && !ack);
        assert_eq!(is_syn_packet(flags, false), syn && ack);
    }
}

#[test]
fn window_is_big_endian() {
    assert_eq!(window_size(&segment(5, SYN, 0x1234, &[])), 0x1234);
    assert_eq!(window_size(&segment(5, SYN, 65535, &[])), 65535);
    assert_eq!(window_size(&segment(5, SYN, 0, &[])), 0);
    assert_eq!(window_size(&segment(5, SYN, 256, &[])), 256);
}

#[test]
fn kinds_are_joined_by_dashes() {
    assert_eq!(render_kinds(&vec![]), "");
    assert_eq!(render_kinds(&vec![0]), "0");
    assert_eq!(render_kinds(&vec![2, 4, 8, 1, 3]), "2-4-8-1-3");
    assert_eq!(render_kinds(&vec![255, 100, 10, 9]), "255-100-10-9");
}

#[test]
fn signature_joins_the_four_fields() {
    assert_eq!(compose_signature(29200, "2-1-3-1-1-8", "1460", "7"), "29200:2-1-3-1-1-8:1460:7");
    assert_eq!(compose_signature(0, "", "", ""), "0:::");
    assert_eq!(compose_signature(65535, "2", "", "14"), "65535:2::14");
}
