//! Controller, peer-bookkeeping and device-information tests, and a
//! socket-free walk of the whole media path.

use styx::control::{StreamError, UdpConnectionInfo, UdpStreamState, DEFAULT_BITRATE};
use styx::framer::Framer;
use styx::devices::{
    contains_bytes, device_list_has, get_audio_info, is_asio_available, AudioDevice,
    AudioStreamConfig, StreamState,
};
use styx::jitter::JitterBuffer;
use styx::peers::{PeerRegistry, PeerStats};
use styx::ring::PlaybackRing;
use styx::stun::NetAddr;
use styx::wire::{build_audio_packet, classify_datagram, parse_audio_packet, DatagramKind};

fn peer(last: u8, port: u16) -> NetAddr {
    NetAddr::from_octets(127, 0, 0, last, port)
}

#[test]
fn start_direct_needs_socket_and_peers() {
    let mut st = UdpStreamState::default();
    assert_eq!(st.start_direct(), Err(StreamError::NoSocket));
    st.bind(4000).unwrap();
    assert_eq!(st.start_direct(), Err(StreamError::NoPeers));
    st.add_peer(peer(1, 4000));
    assert_eq!(st.start_direct(), Ok(()));
    assert!(st.is_running);
    assert_eq!(st.start_direct(), Err(StreamError::AlreadyRunning));
}

#[test]
fn start_relay_needs_relay_and_session() {
    let mut st = UdpStreamState::default();
    st.bind(4000).unwrap();
    assert_eq!(st.start_relay(), Err(StreamError::NoRelayAddr));
    st.relay_addr = Some(peer(9, 7000));
    assert_eq!(st.start_relay(), Err(StreamError::NoSessionId));
    st.session_id = Some(b"room".to_vec());
    assert_eq!(st.start_relay(), Ok(()));
    assert_eq!(st.start_relay(), Err(StreamError::AlreadyRunning));
}

#[test]
fn bind_is_rejected_while_running() {
    let mut st = UdpStreamState::default();
    st.bind(4000).unwrap();
    st.add_peer(peer(1, 4000));
    st.start_direct().unwrap();
    assert_eq!(st.bind(5000), Err(StreamError::AlreadyRunning));
}

#[test]
fn stop_resets_session_state() {
    let mut st = UdpStreamState::default();
    st.bind(4000).unwrap();
    st.add_peer(peer(1, 4000));
    st.start_direct().unwrap();
    let _ = st.next_sequence();
    st.record_sent(10);
    st.record_received(8);
    st.record_lost(2);
    st.stop();
    assert!(!st.is_running);
    assert_eq!(st.bound_port, None);
    assert_eq!(st.sequence, 0);
    assert!(st.peers.is_empty());
    assert_eq!(st.packets_sent, 0);
    assert_eq!(st.packets_received, 0);
    assert_eq!(st.packets_lost, 0);
}

#[test]
fn sequence_numbers_are_consecutive() {
    let mut st = UdpStreamState::default();
    let a = st.next_sequence();
    let b = st.next_sequence();
    let c = st.next_sequence();
    assert_eq!(a, 0);
    assert_eq!(b, a.wrapping_add(1));
    assert_eq!(c, b.wrapping_add(1));
    st.sequence = u32::MAX;
    let d = st.next_sequence();
    let e = st.next_sequence();
    assert_eq!(d, u32::MAX);
    assert_eq!(e, d.wrapping_add(1));
    assert_eq!(e, 0);
}

#[test]
fn bitrate_and_jitter_target_clamp() {
    let mut st = UdpStreamState::default();
    assert_eq!(st.bitrate, DEFAULT_BITRATE);
    st.set_bitrate(4);
    assert_eq!(st.bitrate, 16);
    st.set_bitrate(9999);
    assert_eq!(st.bitrate, 256);
    st.set_bitrate(128);
    assert_eq!(st.bitrate, 128);
    st.set_jitter_target(0);
    assert_eq!(st.jitter_target, 2);
    st.set_jitter_target(100);
    assert_eq!(st.jitter_target, 15);
    st.set_jitter_target(7);
    assert_eq!(st.jitter_target, 7);
}

#[test]
fn stats_snapshot_reflects_counters() {
    let mut st = UdpStreamState::default();
    st.record_sent(5);
    st.record_received(4);
    st.record_lost(1);
    st.add_peer(peer(1, 4000));
    st.add_peer(peer(2, 4000));
    let s = st.stats(3, 4);
    assert_eq!(s.packets_sent, 5);
    assert_eq!(s.packets_received, 4);
    assert_eq!(s.packets_lost, 1);
    assert_eq!(s.peer_count, 2);
    assert!(!s.is_running);
    assert_eq!(s.jitter_buffer_size, 3);
    assert_eq!(s.jitter_buffer_target, 4);
}

#[test]
fn loss_plan_counts_small_gaps() {
    let mut reg = PeerRegistry::new();
    let p = peer(1, 4000);
    // First frame from a new peer: nothing lost.
    let plan0 = reg.observe_sequence(p, 0);
    assert_eq!(plan0.lost, 0);
    assert_eq!(plan0.conceal, 0);
    let plan1 = reg.observe_sequence(p, 1);
    assert_eq!(plan1.lost, 0);
    // 1 -> 4 skips 2 and 3.
    let plan2 = reg.observe_sequence(p, 4);
    assert_eq!(plan2.expected, 2);
    assert_eq!(plan2.lost, 2);
    assert_eq!(plan2.conceal, 2);
    // A jump of 10 or more is counted but not concealed.
    let plan3 = reg.observe_sequence(p, 30);
    assert_eq!(plan3.lost, 25);
    assert_eq!(plan3.conceal, 0);
    // Going backwards counts nothing.
    let plan4 = reg.observe_sequence(p, 7);
    assert_eq!(plan4.lost, 0);
}

#[test]
fn loss_plan_detects_gaps_across_the_wrap() {
    let mut reg = PeerRegistry::new();
    let p = peer(1, 4000);
    reg.observe_sequence(p, u32::MAX - 2);
    // 0xFFFFFFFE, 0xFFFFFFFF and 0 went missing: a 3-frame gap under the
    // signed-distance rule, even though 1 is numerically tiny.
    let plan = reg.observe_sequence(p, 1);
    assert_eq!(plan.expected, u32::MAX - 1);
    assert_eq!(plan.lost, 3);
    assert_eq!(plan.conceal, 3);
}

#[test]
fn reorder_within_window_counts_no_net_loss() {
    // Deliveries {0, 2, 1, 3}: the gap counted when 2 overtakes 1 is taken
    // back when 1 arrives, so no loss remains on the counters.
    let mut reg = PeerRegistry::new();
    let mut st = UdpStreamState::default();
    let p = peer(1, 4000);
    for seq in [0u32, 2, 1, 3] {
        let plan = reg.observe_sequence(p, seq);
        st.record_lost(plan.lost);
        st.record_recovered(plan.recovered);
        reg.record_decoded(p, seq, plan.lost, 0);
        reg.record_recovered(p, plan.recovered);
    }
    assert_eq!(st.packets_lost, 0);
    assert_eq!(reg.stats_of(p).unwrap().packets_lost, 0);
    // A second copy of the late frame recovers nothing further.
    let dup = reg.observe_sequence(p, 1);
    assert_eq!(dup.recovered, 0);
    assert_eq!(dup.lost, 0);
}

#[test]
fn peer_stats_accumulate() {
    let mut reg = PeerRegistry::new();
    let p = peer(1, 4000);
    let q = peer(2, 4000);
    reg.record_decoded(p, 0, 0, 10);
    reg.record_decoded(p, 1, 2, 55);
    reg.record_decoded(q, 7, 0, 0);
    assert_eq!(reg.len(), 2);
    let sp = reg.stats_of(p).unwrap();
    assert_eq!(
        sp,
        PeerStats { packets_received: 2, packets_lost: 2, last_seq: 1, audio_level: 55 }
    );
    let sq = reg.stats_of(q).unwrap();
    assert_eq!(sq.packets_received, 1);
    assert!(reg.stats_of(peer(3, 1)).is_none());
    let all = reg.all_entries();
    assert_eq!(all.len(), 2);
    assert_eq!(all[0].addr, p);
    assert_eq!(all[1].addr, q);
}

/// Frames delivered as {0, 1, 2, 4, 5} play as {0, 1, 2, concealed 3, 4, 5}
/// with one frame counted lost and five received.
#[test]
fn loss_recovery_path() {
    let mut reg = PeerRegistry::new();
    let mut jb: JitterBuffer<u32> = JitterBuffer::new(4);
    let mut st = UdpStreamState::default();
    let p = peer(1, 4000);
    const PLC: u32 = 0xFFFF;
    for seq in [0u32, 1, 2, 4, 5] {
        let plan = reg.observe_sequence(p, seq);
        for k in 0..plan.conceal {
            jb.push(plan.expected.wrapping_add(k), PLC + plan.expected + k);
        }
        st.record_lost(plan.lost);
        jb.push(seq, 100 + seq);
        reg.record_decoded(p, seq, plan.lost, 0);
        st.record_received(1);
    }
    let popped: Vec<u32> = (0..6).map(|_| jb.pop().unwrap()).collect();
    assert_eq!(popped, vec![100, 101, 102, PLC + 3, 104, 105]);
    assert_eq!(st.packets_lost, 1);
    assert_eq!(st.packets_received, 5);
    let stats = reg.stats_of(p).unwrap();
    assert_eq!(stats.packets_received, 5);
    assert_eq!(stats.packets_lost, 1);
}

/// A hundred silent frames walked through the whole media path without a
/// network: framing, packet build and parse, jitter buffering and playback.
#[test]
fn loopback_without_sockets() {
    let mut sender = UdpStreamState::default();
    sender.bind(4000).unwrap();
    sender.add_peer(peer(1, 4000));
    sender.start_direct().unwrap();
    let mut framer: Framer<f32> = Framer::new(2);
    let mut reg = PeerRegistry::new();
    let mut jb: JitterBuffer<Vec<f32>> = JitterBuffer::new(2);
    let mut ring: PlaybackRing<f32> = PlaybackRing::new();
    let src = peer(1, 4000);
    // 100 chunks of 960 silent samples: one frame each.
    for _ in 0..100 {
        let frames = framer.push(vec![0.0f32; 960]);
        for frame in frames {
            // Stand-in for the codec: carry the PCM through as bytes of
            // zero, one byte per ten samples.
            let payload = vec![0u8; frame.len() / 10];
            let seq = sender.next_sequence();
            let packet = build_audio_packet(seq, 0, &payload);
            sender.record_sent(1);
            // Receive side.
            assert_eq!(classify_datagram(packet.len()), DatagramKind::Media);
            let (header, body) = parse_audio_packet(&packet).unwrap();
            assert_eq!(header.sequence, seq);
            let plan = reg.observe_sequence(src, header.sequence);
            assert_eq!(plan.lost, 0);
            let decoded = vec![0.0f32; body.len() * 10];
            reg.record_decoded(src, header.sequence, plan.lost, 0);
            jb.push(header.sequence, decoded);
            if let Some(samples) = jb.pop() {
                ring.push_samples(samples);
            }
        }
    }
    assert_eq!(sender.packets_sent, 100);
    let stats = reg.stats_of(src).unwrap();
    assert_eq!(stats.packets_received, 100);
    assert_eq!(stats.packets_lost, 0);
    assert!(ring.len() > 0);
    let out = ring.take(960);
    assert!(out.iter().all(|s| s.abs() < 1e-6));
}

#[test]
fn keepalives_do_not_reach_the_media_path() {
    // A keepalive or an undersized datagram is classified away before any
    // counter or buffer is touched.
    assert_eq!(classify_datagram(1), DatagramKind::Keepalive);
    assert_eq!(classify_datagram(10), DatagramKind::Undersized);
}

#[test]
fn asio_detection_scans_host_names() {
    assert!(!is_asio_available(&vec![]));
    assert!(!is_asio_available(&vec!["Alsa".to_string(), "Jack".to_string()]));
    assert!(is_asio_available(&vec!["Alsa".to_string(), "Asio".to_string()]));
    assert!(is_asio_available(&vec!["SteinbergAsioDriver".to_string()]));
    // Case matters, as in the host names the backends report.
    assert!(!is_asio_available(&vec!["asio".to_string()]));
}

#[test]
fn audio_info_carries_its_inputs() {
    let hosts = vec!["Alsa".to_string(), "Asio".to_string()];
    let devices = vec![AudioDevice {
        name: "mic".to_string(),
        is_input: true,
        is_default: true,
    }];
    let info = get_audio_info(hosts.clone(), devices.clone());
    assert_eq!(info.hosts, hosts);
    assert_eq!(info.devices, devices);
    assert!(info.asio_available);
    assert_eq!(info.default_sample_rate, 48000);
}

#[test]
fn substring_search_is_exact() {
    assert!(contains_bytes(b"SteinbergAsioDriver", b"Asio"));
    assert!(contains_bytes(b"Asio", b"Asio"));
    assert!(contains_bytes(b"anything", b""));
    assert!(!contains_bytes(b"Asi", b"Asio"));
    assert!(!contains_bytes(b"A-s-i-o", b"Asio"));
}

#[test]
fn device_dedup_matches_name_and_direction() {
    let devices = vec![
        AudioDevice { name: "[default] USB Mic".to_string(), is_input: true, is_default: true },
        AudioDevice { name: "[default] Speakers".to_string(), is_input: false, is_default: true },
    ];
    // The enumerated plain name is contained in the default entry's name.
    assert!(device_list_has(&devices, &"USB Mic".to_string(), true));
    // Same name, other direction: not a duplicate.
    assert!(!device_list_has(&devices, &"USB Mic".to_string(), false));
    assert!(!device_list_has(&devices, &"Line In".to_string(), true));
}

#[test]
fn connection_info_is_plain_data() {
    let info = UdpConnectionInfo {
        local_port: 40000,
        remote_addr: Some("198.51.100.1:40000".to_string()),
        is_connected: true,
    };
    assert_eq!(info.local_port, 40000);
    assert!(info.is_connected);
    assert_eq!(info.remote_addr.as_deref(), Some("198.51.100.1:40000"));
}

#[test]
fn default_configs_are_48khz() {
    let c = AudioStreamConfig::default();
    assert_eq!(c.sample_rate, 48000);
    assert_eq!(c.channels, 1);
    assert_eq!(c.buffer_size, 480);
    let s = StreamState::default();
    assert!(!s.is_running);
    assert!(!s.is_muted);
    assert_eq!(s.sample_rate, 48000);
    assert_eq!(s.channels, 1);
}
