//! Wire-level tests: headers, media packets, relay frames, control frames
//! and STUN parsing.

use styx::header::AudioPacketHeader;
use styx::header::HEADER_SIZE;
use styx::stun::{classify_nat, parse_stun_response, stun_binding_request, NatKind, NetAddr};
use styx::wire::{
    build_audio_packet, build_ping, build_relay_frame, classify_datagram, keepalive_frame,
    measure_rtt, pad_session, parse_audio_packet, parse_pong, parse_relay_frame, DatagramKind,
};

fn sample_header() -> AudioPacketHeader {
    AudioPacketHeader {
        sequence: 0xDEADBEEF,
        timestamp: 0x0123_4567_89AB_CDEF,
        sample_rate: 48000,
        channels: 2,
        payload_len: 0x1234,
    }
}

#[test]
fn header_encodes_big_endian() {
    let h = AudioPacketHeader {
        sequence: 1,
        timestamp: 2,
        sample_rate: 48000,
        channels: 2,
        payload_len: 3,
    };
    let bytes = h.to_bytes();
    assert_eq!(bytes.len(), 19);
    assert_eq!(&bytes[0..4], &[0, 0, 0, 1]);
    assert_eq!(&bytes[4..12], &[0, 0, 0, 0, 0, 0, 0, 2]);
    // 48000 = 0x0000BB80
    assert_eq!(&bytes[12..16], &[0x00, 0x00, 0xBB, 0x80]);
    assert_eq!(bytes[16], 2);
    assert_eq!(&bytes[17..19], &[0, 3]);
}

#[test]
fn header_round_trips() {
    let h = sample_header();
    let bytes = h.to_bytes();
    let back = AudioPacketHeader::from_bytes(&bytes).expect("19 bytes must parse");
    assert_eq!(back, h);
}

#[test]
fn header_rejects_short_input() {
    for len in 0..HEADER_SIZE {
        let short = vec![0xAB; len];
        assert!(AudioPacketHeader::from_bytes(&short).is_none());
    }
    let exact = vec![0u8; HEADER_SIZE];
    assert!(AudioPacketHeader::from_bytes(&exact).is_some());
}

#[test]
fn audio_packet_builds_and_parses() {
    let payload = vec![9u8, 8, 7, 6, 5];
    let packet = build_audio_packet(7, 123456, &payload);
    assert_eq!(packet.len(), HEADER_SIZE + payload.len());
    let (h, p) = parse_audio_packet(&packet).expect("packet must parse");
    assert_eq!(h.sequence, 7);
    assert_eq!(h.timestamp, 123456);
    assert_eq!(h.sample_rate, 48000);
    assert_eq!(h.channels, 2);
    assert_eq!(h.payload_len, 5);
    assert_eq!(p, payload);
}

#[test]
fn classify_datagram_ignores_keepalives_and_runts() {
    assert_eq!(classify_datagram(0), DatagramKind::Keepalive);
    assert_eq!(classify_datagram(1), DatagramKind::Keepalive);
    assert_eq!(classify_datagram(2), DatagramKind::Undersized);
    assert_eq!(classify_datagram(18), DatagramKind::Undersized);
    assert_eq!(classify_datagram(19), DatagramKind::Media);
    assert_eq!(classify_datagram(1500), DatagramKind::Media);
}

#[test]
fn keepalive_is_one_zero_byte() {
    assert_eq!(keepalive_frame(), vec![0u8]);
}

#[test]
fn session_padding_is_twenty_bytes() {
    let padded = pad_session(b"room42");
    assert_eq!(padded.len(), 20);
    assert_eq!(&padded[0..6], b"room42");
    assert!(padded[6..].iter().all(|&b| b == 0));
    let long = pad_session(&[7u8; 32]);
    assert_eq!(long, vec![7u8; 20]);
}

#[test]
fn relay_self_frame_is_dropped() {
    // A frame tagged with the receiver's own session is never decoded: the
    // receive step sees nothing, so no counter moves and no audio is
    // appended.
    let session = b"session-S";
    let frame = build_relay_frame(session, 3, 555, &vec![1u8, 2, 3]);
    let mut receiver = styx::control::UdpStreamState::default();
    let mut ring: styx::ring::PlaybackRing<f32> = styx::ring::PlaybackRing::new();
    if let Some((_, payload)) = parse_relay_frame(&frame, session) {
        receiver.record_received(1);
        ring.push_samples(vec![0.0f32; payload.len()]);
    }
    assert_eq!(receiver.packets_received, 0);
    assert_eq!(ring.len(), 0);
}

#[test]
fn relay_cross_session_frame_parses() {
    let frame = build_relay_frame(b"alice", 9, 123_456_789, &vec![0xAA, 0xBB]);
    let (h, p) = parse_relay_frame(&frame, b"bob").expect("other session must parse");
    assert_eq!(h.sequence, 9);
    assert_eq!(h.timestamp, 123_456_789);
    assert_eq!(h.payload_len, 2);
    assert_eq!(p, vec![0xAA, 0xBB]);
}

#[test]
fn relay_short_frame_is_dropped() {
    // Exactly session + header, with no payload, is ignored.
    let frame = build_relay_frame(b"alice", 9, 1, &Vec::new());
    assert_eq!(frame.len(), 39);
    assert!(parse_relay_frame(&frame, b"bob").is_none());
}

#[test]
fn ping_pong_round_trip() {
    let ping = build_ping(0x1122_3344_5566_7788);
    assert_eq!(ping.len(), 9);
    assert_eq!(ping[0], 0x50);
    // A pong echoes the ping's timestamp behind the pong tag.
    let mut pong = ping.clone();
    pong[0] = 0x4F;
    assert_eq!(parse_pong(&pong), Some(0x1122_3344_5566_7788));
    // A ping is not a pong, and a short frame is nothing.
    assert_eq!(parse_pong(&ping), None);
    assert_eq!(parse_pong(&pong[..8]), None);
}

#[test]
fn rtt_is_the_difference() {
    assert_eq!(measure_rtt(1000, 1042), 42);
    assert_eq!(measure_rtt(5, 5), 0);
}

#[test]
fn stun_request_has_type_cookie_and_id() {
    let txn = [1u8, 2, 3, 4, 5, 6, 7, 8, 9, 10, 11, 12];
    let req = stun_binding_request(&txn);
    assert_eq!(req.len(), 20);
    assert_eq!(&req[0..4], &[0x00, 0x01, 0x00, 0x00]);
    assert_eq!(&req[4..8], &[0x21, 0x12, 0xA4, 0x42]);
    assert_eq!(&req[8..20], &txn);
}

/// The canonical XOR-MAPPED-ADDRESS response for 203.0.113.5:4242.
fn xor_mapped_fixture() -> Vec<u8> {
    let mut r = Vec::new();
    // Binding success response header: type, length 12, cookie, transaction id.
    r.extend_from_slice(&[0x01, 0x01, 0x00, 0x0C]);
    r.extend_from_slice(&[0x21, 0x12, 0xA4, 0x42]);
    r.extend_from_slice(&[0u8; 12]);
    // XOR-MAPPED-ADDRESS attribute, 8 bytes, family IPv4.
    r.extend_from_slice(&[0x00, 0x20, 0x00, 0x08]);
    r.extend_from_slice(&[0x00, 0x01]);
    // 4242 ^ 0x2112 and 203.0.113.5 ^ 21 12 A4 42.
    r.extend_from_slice(&[0x31, 0x80]);
    r.extend_from_slice(&[0xEA, 0x12, 0xD5, 0x47]);
    r
}

#[test]
fn stun_xor_mapped_response_parses() {
    let addr = parse_stun_response(&xor_mapped_fixture()).expect("fixture must parse");
    assert_eq!(addr, NetAddr::from_octets(203, 0, 113, 5, 4242));
}

#[test]
fn stun_plain_mapped_fallback_parses() {
    let mut r = Vec::new();
    r.extend_from_slice(&[0x01, 0x01, 0x00, 0x0C]);
    r.extend_from_slice(&[0x21, 0x12, 0xA4, 0x42]);
    r.extend_from_slice(&[0u8; 12]);
    // An unknown attribute first (4 bytes + padding already aligned).
    r.extend_from_slice(&[0x80, 0x22, 0x00, 0x04]);
    r.extend_from_slice(&[b't', b'e', b's', b't']);
    // MAPPED-ADDRESS, family IPv4, port 3478, 192.0.2.1.
    r.extend_from_slice(&[0x00, 0x01, 0x00, 0x08]);
    r.extend_from_slice(&[0x00, 0x01]);
    r.extend_from_slice(&[0x0D, 0x96]);
    r.extend_from_slice(&[192, 0, 2, 1]);
    let addr = parse_stun_response(&r).expect("mapped address must parse");
    assert_eq!(addr, NetAddr::from_octets(192, 0, 2, 1, 3478));
}

#[test]
fn stun_prefers_xor_mapped_over_mapped() {
    // A MAPPED-ADDRESS stands first; the XOR-MAPPED-ADDRESS after it must
    // still win.
    let mut r = Vec::new();
    r.extend_from_slice(&[0x01, 0x01, 0x00, 0x18]);
    r.extend_from_slice(&[0x21, 0x12, 0xA4, 0x42]);
    r.extend_from_slice(&[0u8; 12]);
    // MAPPED-ADDRESS: 192.0.2.1:3478.
    r.extend_from_slice(&[0x00, 0x01, 0x00, 0x08]);
    r.extend_from_slice(&[0x00, 0x01]);
    r.extend_from_slice(&[0x0D, 0x96]);
    r.extend_from_slice(&[192, 0, 2, 1]);
    // XOR-MAPPED-ADDRESS: 203.0.113.5:4242.
    r.extend_from_slice(&[0x00, 0x20, 0x00, 0x08]);
    r.extend_from_slice(&[0x00, 0x01]);
    r.extend_from_slice(&[0x31, 0x80]);
    r.extend_from_slice(&[0xEA, 0x12, 0xD5, 0x47]);
    let addr = parse_stun_response(&r).expect("response must parse");
    assert_eq!(addr, NetAddr::from_octets(203, 0, 113, 5, 4242));
}

#[test]
fn stun_response_without_address_fails() {
    // Too short for a header.
    assert!(parse_stun_response(&[0u8; 19]).is_none());
    // A header with no attributes.
    assert!(parse_stun_response(&[0u8; 20]).is_none());
    // An attribute of the wrong family.
    let mut r = Vec::new();
    r.extend_from_slice(&[0x01, 0x01, 0x00, 0x0C]);
    r.extend_from_slice(&[0x21, 0x12, 0xA4, 0x42]);
    r.extend_from_slice(&[0u8; 12]);
    r.extend_from_slice(&[0x00, 0x20, 0x00, 0x08]);
    r.extend_from_slice(&[0x00, 0x02]);
    r.extend_from_slice(&[0u8; 6]);
    assert!(parse_stun_response(&r).is_none());
}

#[test]
fn nat_classification_compares_reflexive_addresses() {
    let a = NetAddr::from_octets(198, 51, 100, 1, 40000);
    let b = NetAddr::from_octets(198, 51, 100, 1, 40001);
    let c = NetAddr::from_octets(198, 51, 100, 2, 40000);
    assert_eq!(classify_nat(a, a, None), NatKind::OpenOrFullCone);
    assert_eq!(classify_nat(a, a, Some(a)), NatKind::OpenOrFullCone);
    assert_eq!(classify_nat(a, a, Some(b)), NatKind::PortRestricted);
    assert_eq!(classify_nat(a, a, Some(c)), NatKind::Symmetric);
    assert_eq!(classify_nat(a, b, None), NatKind::Symmetric);
    assert_eq!(classify_nat(a, b, Some(a)), NatKind::Symmetric);
}
