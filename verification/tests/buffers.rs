//! Buffer tests: the jitter buffer, the PCM framer, the playback ring and
//! the chunk queue.

use styx::fifo::ChunkQueue;
use styx::framer::Framer;
use styx::jitter::{JitterBuffer, MAX_JITTER_BUFFER, MIN_JITTER_BUFFER};
use styx::ring::PlaybackRing;

#[test]
fn jitter_pops_in_order() {
    let mut jb: JitterBuffer<u32> = JitterBuffer::new(4);
    for seq in [0u32, 1, 2, 3, 4] {
        jb.push(seq, 100 + seq);
    }
    for seq in [0u32, 1, 2, 3, 4] {
        assert_eq!(jb.pop(), Some(100 + seq));
    }
    assert_eq!(jb.pop(), None);
    assert_eq!(jb.next_expected(), 5);
}

#[test]
fn jitter_reorders_within_window() {
    // Frames delivered as {0, 2, 1, 3} still play as {0, 1, 2, 3}.
    let mut jb: JitterBuffer<u32> = JitterBuffer::new(4);
    for seq in [0u32, 2, 1, 3] {
        jb.push(seq, 100 + seq);
    }
    for seq in [0u32, 1, 2, 3] {
        assert_eq!(jb.pop(), Some(100 + seq));
    }
}

#[test]
fn jitter_delivers_under_live_interleaving() {
    // One push, one pop per tick, from the very start of a stream: with
    // the signed-distance late rule nothing is misjudged as late and every
    // frame comes out, in order.
    let mut jb: JitterBuffer<u32> = JitterBuffer::new(2);
    for seq in 0u32..40 {
        jb.push(seq, 100 + seq);
        assert_eq!(jb.pop(), Some(100 + seq));
    }
    assert_eq!(jb.next_expected(), 40);
}

#[test]
fn jitter_accepts_frames_across_the_wrap() {
    // Frames just past the 32-bit wrap are ahead, not thirty years late.
    let mut jb: JitterBuffer<u32> = JitterBuffer::new(2);
    jb.push(u32::MAX, 1);
    assert_eq!(jb.pop(), Some(1));
    assert_eq!(jb.next_expected(), 0);
    jb.push(0, 2);
    assert_eq!(jb.pop(), Some(2));
    jb.push(1, 3);
    assert_eq!(jb.pop(), Some(3));
    assert_eq!(jb.next_expected(), 2);
}

#[test]
fn jitter_replaces_duplicate_sequence() {
    let mut jb: JitterBuffer<u32> = JitterBuffer::new(4);
    jb.push(5, 1);
    jb.push(5, 2);
    assert_eq!(jb.len(), 1);
}

#[test]
fn jitter_skips_a_gap_once_half_full() {
    let mut jb: JitterBuffer<u32> = JitterBuffer::new(4);
    // Nothing at 0; half the target depth is 2 buffered frames.
    jb.push(7, 107);
    assert_eq!(jb.pop(), None);
    jb.push(8, 108);
    // Two frames buffered: skip to the oldest.
    assert_eq!(jb.pop(), Some(107));
    assert_eq!(jb.next_expected(), 8);
    assert_eq!(jb.pop(), Some(108));
}

#[test]
fn jitter_evicts_oldest_when_overfull() {
    let mut jb: JitterBuffer<u32> = JitterBuffer::new(2);
    // Twice the target depth is 4; a fifth frame evicts the lowest.
    for seq in 0u32..5 {
        jb.push(seq, 100 + seq);
    }
    assert_eq!(jb.len(), 4);
    assert_eq!(jb.pop(), Some(101));
}

#[test]
fn jitter_discards_frames_far_behind_playout() {
    let mut jb: JitterBuffer<u32> = JitterBuffer::new(2);
    jb.push(1000, 1);
    assert_eq!(jb.pop(), Some(1));
    assert_eq!(jb.next_expected(), 1001);
    // 500 is more than two target depths behind 1001: discarded as late.
    jb.push(500, 2);
    assert_eq!(jb.len(), 0);
}

#[test]
fn jitter_target_defaults_and_clamping() {
    let jb: JitterBuffer<u32> = JitterBuffer::new(0);
    assert_eq!(jb.target_size(), MIN_JITTER_BUFFER);
    let jb2: JitterBuffer<u32> = JitterBuffer::new(99);
    assert_eq!(jb2.target_size(), MAX_JITTER_BUFFER);
    let mut jb3: JitterBuffer<u32> = JitterBuffer::new(5);
    jb3.set_target(1);
    assert_eq!(jb3.target_size(), MIN_JITTER_BUFFER);
    jb3.set_target(15);
    assert_eq!(jb3.target_size(), MAX_JITTER_BUFFER);
}

#[test]
fn jitter_adapts_up_under_late_arrivals() {
    let mut jb: JitterBuffer<u32> = JitterBuffer::new(2);
    // Move playout forward so that old sequences count as late.
    jb.push(1000, 0);
    assert_eq!(jb.pop(), Some(0));
    assert_eq!(jb.target_size(), 2);
    // 10 late frames out of 100 pushes: the ratio 0.1 exceeds 0.05, so the
    // target depth grows by exactly one at the hundredth push.
    for k in 0u32..10 {
        jb.push(500 + k, 0);
    }
    for k in 0u32..89 {
        jb.push(1001 + k, 0);
    }
    assert_eq!(jb.target_size(), 3);
}

#[test]
fn jitter_adapts_down_when_clean() {
    let mut jb: JitterBuffer<u32> = JitterBuffer::new(5);
    // 100 pushes with no late frame: the ratio 0 is under 0.01.
    for k in 0u32..100 {
        jb.push(k, 0);
    }
    assert_eq!(jb.target_size(), 4);
}

#[test]
fn jitter_target_stays_in_bounds() {
    let mut jb: JitterBuffer<u32> = JitterBuffer::new(2);
    jb.push(1000, 0);
    let _ = jb.pop();
    // Round after round of almost-all-late frames can only drive the
    // target to its maximum. Each round ends with a fresh frame as its
    // hundredth push, where adaptation runs.
    for _ in 0..98 {
        jb.push(500, 0);
    }
    jb.push(1001, 0);
    assert_eq!(jb.target_size(), 3);
    for round in 0u32..11 {
        for _ in 0..99 {
            jb.push(500, 0);
        }
        jb.push(1002 + round, 0);
        let t = jb.target_size();
        assert!((MIN_JITTER_BUFFER..=MAX_JITTER_BUFFER).contains(&t));
    }
    assert_eq!(jb.target_size(), MAX_JITTER_BUFFER);
}

#[test]
fn framer_counts_whole_frames() {
    let mut f: Framer<f32> = Framer::new(2);
    // 2.5 frames of stereo samples in chunks of 400.
    let mut emitted = 0usize;
    for _ in 0..6 {
        let chunk = vec![0.0f32; 400];
        emitted += f.push(chunk).len();
    }
    // 2400 samples consumed: exactly floor(2400 / 960) frames emitted.
    assert_eq!(f.samples_consumed(), 2400);
    assert_eq!(f.frames_emitted(), 2);
    assert_eq!(emitted, 2);
}

#[test]
fn framer_emits_exact_frames_in_order() {
    let mut f: Framer<u32> = Framer::new(1);
    let first: Vec<u32> = (0..500).collect();
    let frames = f.push(first);
    assert_eq!(frames.len(), 1);
    assert_eq!(frames[0].len(), 480);
    assert_eq!(frames[0][0], 0);
    assert_eq!(frames[0][479], 479);
    let second: Vec<u32> = (500..960).collect();
    let frames2 = f.push(second);
    assert_eq!(frames2.len(), 1);
    assert_eq!(frames2[0][0], 480);
    assert_eq!(frames2[0][479], 959);
    assert_eq!(f.frames_emitted(), 2);
}

#[test]
fn ring_caps_at_two_hundred_milliseconds() {
    let mut ring: PlaybackRing<f32> = PlaybackRing::new();
    for _ in 0..11 {
        ring.push_samples(vec![1.0f32; 960]);
    }
    assert_eq!(ring.len(), 9600);
    // The newest samples stay; a marker pushed last must survive.
    ring.push_samples(vec![2.0f32; 960]);
    assert_eq!(ring.len(), 9600);
    let drained = ring.take(9600);
    assert_eq!(drained[9599], 2.0);
}

#[test]
fn ring_drains_front_first() {
    let mut ring: PlaybackRing<u32> = PlaybackRing::new();
    ring.push_samples(vec![1, 2, 3, 4, 5]);
    assert_eq!(ring.take(2), vec![1, 2]);
    assert_eq!(ring.take(10), vec![3, 4, 5]);
    assert_eq!(ring.take(10), Vec::<u32>::new());
}

#[test]
fn chunk_queue_caps_and_keeps_order() {
    let mut q = ChunkQueue::new();
    for i in 0u8..110 {
        q.push_chunk(vec![i]);
    }
    assert_eq!(q.len(), 100);
    // The ten oldest chunks were dropped.
    assert_eq!(q.pop_chunk(), Some(vec![10u8]));
    assert_eq!(q.pop_chunk(), Some(vec![11u8]));
    let mut q2 = ChunkQueue::new();
    assert_eq!(q2.pop_chunk(), None);
}
