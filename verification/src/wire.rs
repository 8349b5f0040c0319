//! Datagram framing: media packets, relay frames and control frames.
//!
//! A media datagram is the 19-byte audio header followed by the codec
//! payload. A relay frame prefixes that with a 20-byte zero-padded session
//! identifier, and a receiver discards relay frames tagged with its own
//! session. Control traffic is a 1-byte keepalive, a 9-byte ping and a
//! 9-byte pong.

use vstd::prelude::*;
use crate::header::AudioPacketHeader;
use crate::header::HEADER_SIZE;
use crate::header::be64_bytes;
use crate::header::be64_value;

verus! {

/// Largest datagram accepted or produced, in bytes.
pub const MAX_DATAGRAM: usize = 1500;

/// Largest codec payload that fits a media datagram after the header.
pub const MAX_PAYLOAD: usize = 1481;

/// Length of the zero-padded relay session identifier.
pub const SESSION_ID_LEN: usize = 20;

/// First byte of a ping control frame.
pub const PING_TAG: u8 = 0x50;

/// First byte of a pong control frame.
pub const PONG_TAG: u8 = 0x4f;

/// What the receive path does with a datagram of a given length: a 1-byte
/// or empty datagram is a keepalive, anything else shorter than a header is
/// discarded, the rest is media.
#[derive(Clone, Copy, Debug, PartialEq, Eq, Structural)]
pub enum DatagramKind {
    /// At most one byte: a keepalive, ignored.
    Keepalive,
    /// Longer than a keepalive but too short for a header: discarded.
    Undersized,
    /// Long enough to carry a header: handed to the decoder.
    Media,
}

/// Classify an incoming datagram by its length. Keepalives and undersized
/// datagrams are ignored by the receive path and change no state.
pub fn classify_datagram(len: usize) -> (r: DatagramKind)
    ensures
        r == DatagramKind::Keepalive <==> len <= 1,
        r == DatagramKind::Undersized <==> 1 < len < HEADER_SIZE,
        r == DatagramKind::Media <==> len >= HEADER_SIZE,
{
    if len <= 1 {
        DatagramKind::Keepalive
    } else if len < HEADER_SIZE {
        DatagramKind::Undersized
    } else {
        DatagramKind::Media
    }
}

/// The header a media packet for this engine carries: 48 kHz stereo and the
/// payload's true length.
pub open spec fn media_header(sequence: u32, timestamp: u64, payload_len: int) -> AudioPacketHeader {
    AudioPacketHeader {
        sequence,
        timestamp,
        sample_rate: 48000,
        channels: 2,
        payload_len: payload_len as u16,
    }
}

/// Serialize one media datagram: the header for this payload, then the
/// payload itself.
pub fn build_audio_packet(sequence: u32, timestamp: u64, payload: &Vec<u8>) -> (r: Vec<u8>)
    requires
        payload@.len() <= MAX_PAYLOAD,
    ensures
        r@ == media_header(sequence, timestamp, payload@.len() as int).spec_bytes() + payload@,
        r@.len() == HEADER_SIZE + payload@.len(),
{
    let header = AudioPacketHeader {
        sequence,
        timestamp,
        sample_rate: 48000,
        channels: 2,
        payload_len: payload.len() as u16,
    };
    let mut packet = header.to_bytes();
    let mut i: usize = 0;
    while i < payload.len()
        invariant
            0 <= i <= payload@.len(),
            packet@ =~= header.spec_bytes() + payload@.subrange(0, i as int),
        decreases payload@.len() - i,
    {
        packet.push(payload[i]);
        i = i + 1;
    }
    proof {
        assert(packet@ =~= media_header(sequence, timestamp, payload@.len() as int).spec_bytes()
            + payload@);
    }
    packet
}

/// Split a media datagram into its header and payload; datagrams shorter
/// than a header are rejected.
pub fn parse_audio_packet(data: &[u8]) -> (r: Option<(AudioPacketHeader, Vec<u8>)>)
    ensures
        r is Some <==> data@.len() >= HEADER_SIZE,
        r matches Some(p) ==> p.0 == AudioPacketHeader::spec_parse(data@) && p.1@
            == data@.subrange(HEADER_SIZE as int, data@.len() as int),
{
    let header = match AudioPacketHeader::from_bytes(data) {
        Some(h) => h,
        None => {
            return None;
        },
    };
    let mut payload: Vec<u8> = Vec::new();
    let mut i: usize = HEADER_SIZE;
    while i < data.len()
        invariant
            HEADER_SIZE <= i <= data@.len(),
            payload@ =~= data@.subrange(HEADER_SIZE as int, i as int),
        decreases data@.len() - i,
    {
        payload.push(data[i]);
        i = i + 1;
    }
    proof {
        assert(payload@ =~= data@.subrange(HEADER_SIZE as int, data@.len() as int));
    }
    Some((header, payload))
}

/// The session identifier zero-padded (or cut) to exactly 20 bytes.
pub open spec fn padded_session(session: Seq<u8>) -> Seq<u8> {
    Seq::new(SESSION_ID_LEN as nat, |i: int|
        if i < session.len() {
            session[i]
        } else {
            0u8
        },
    )
}

/// Zero-pad a session identifier to its 20-byte wire form.
pub fn pad_session(session: &[u8]) -> (r: Vec<u8>)
    ensures
        r@ == padded_session(session@),
        r@.len() == SESSION_ID_LEN,
{
    let mut buf: Vec<u8> = Vec::new();
    let mut i: usize = 0;
    while i < SESSION_ID_LEN
        invariant
            0 <= i <= SESSION_ID_LEN,
            buf@.len() == i,
            forall|j: int| 0 <= j < i ==> buf@[j] == padded_session(session@)[j],
        decreases SESSION_ID_LEN - i,
    {
        if i < session.len() {
            buf.push(session[i]);
        } else {
            buf.push(0);
        }
        i = i + 1;
    }
    proof {
        assert(buf@ =~= padded_session(session@));
    }
    buf
}

/// The bytes of a relay frame: padded session, then a media header, then
/// the payload.
pub open spec fn relay_frame_bytes(
    session: Seq<u8>,
    sequence: u32,
    timestamp: u64,
    payload: Seq<u8>,
) -> Seq<u8> {
    padded_session(session) + media_header(sequence, timestamp, payload.len() as int).spec_bytes()
        + payload
}

/// Serialize one relay frame carrying this session tag and payload.
pub fn build_relay_frame(session: &[u8], sequence: u32, timestamp: u64, payload: &Vec<u8>) -> (r:
    Vec<u8>)
    requires
        payload@.len() <= MAX_PAYLOAD,
    ensures
        r@ == relay_frame_bytes(session@, sequence, timestamp, payload@),
        r@.len() == SESSION_ID_LEN + HEADER_SIZE + payload@.len(),
{
    let mut frame = pad_session(session);
    let packet = build_audio_packet(sequence, timestamp, payload);
    let mut i: usize = 0;
    while i < packet.len()
        invariant
            0 <= i <= packet@.len(),
            frame@ =~= padded_session(session@) + packet@.subrange(0, i as int),
        decreases packet@.len() - i,
    {
        frame.push(packet[i]);
        i = i + 1;
    }
    proof {
        assert(frame@ =~= relay_frame_bytes(session@, sequence, timestamp, payload@));
    }
    frame
}

/// What a relay receiver bound to `local` makes of an incoming frame:
/// nothing unless the frame is longer than a session tag plus a header, and
/// nothing when the frame carries the receiver's own session tag (a
/// self-loop); otherwise the header and payload behind the tag.
pub open spec fn relay_parse_spec(data: Seq<u8>, local: Seq<u8>) -> Option<
    (AudioPacketHeader, Seq<u8>),
> {
    if data.len() <= SESSION_ID_LEN + HEADER_SIZE {
        None
    } else if data.subrange(0, SESSION_ID_LEN as int) == padded_session(local) {
        None
    } else {
        Some(
            (
                AudioPacketHeader::spec_parse(data.subrange(SESSION_ID_LEN as int, data.len() as int)),
                data.subrange((SESSION_ID_LEN + HEADER_SIZE) as int, data.len() as int),
            ),
        )
    }
}

/// Parse a relay frame, dropping self-loops: a frame whose session tag
/// equals our own is never decoded.
pub fn parse_relay_frame(data: &[u8], local_session: &[u8]) -> (r: Option<
    (AudioPacketHeader, Vec<u8>),
>)
    ensures
        r is Some <==> relay_parse_spec(data@, local_session@) is Some,
        r matches Some(p) ==> relay_parse_spec(data@, local_session@) matches Some(q) && p.0 == q.0
            && p.1@ == q.1,
{
    if data.len() <= SESSION_ID_LEN + HEADER_SIZE {
        return None;
    }
    let local = pad_session(local_session);
    let mut same = true;
    let mut i: usize = 0;
    while i < SESSION_ID_LEN
        invariant
            0 <= i <= SESSION_ID_LEN,
            data@.len() > SESSION_ID_LEN + HEADER_SIZE,
            local@ == padded_session(local_session@),
            same <==> (forall|j: int| 0 <= j < i ==> data@[j] == local@[j]),
        decreases SESSION_ID_LEN - i,
    {
        if data[i] != local[i] {
            same = false;
        }
        i = i + 1;
    }
    if same {
        proof {
            assert(data@.subrange(0, SESSION_ID_LEN as int) =~= padded_session(local_session@));
        }
        return None;
    }
    proof {
        assert(data@.subrange(0, SESSION_ID_LEN as int) != padded_session(local_session@)) by {
            let j = choose|j: int| 0 <= j < SESSION_ID_LEN && data@[j] != local@[j];
            assert(data@.subrange(0, SESSION_ID_LEN as int)[j] == data@[j]);
        }
    }
    let mut tail: Vec<u8> = Vec::new();
    let mut i: usize = SESSION_ID_LEN;
    while i < data.len()
        invariant
            SESSION_ID_LEN <= i <= data@.len(),
            tail@ =~= data@.subrange(SESSION_ID_LEN as int, i as int),
        decreases data@.len() - i,
    {
        tail.push(data[i]);
        i = i + 1;
    }
    proof {
        assert(tail@ =~= data@.subrange(SESSION_ID_LEN as int, data@.len() as int));
    }
    let parsed = parse_audio_packet(tail.as_slice());
    match parsed {
        Some(p) => {
            proof {
                assert(p.1@ =~= data@.subrange(
                    (SESSION_ID_LEN + HEADER_SIZE) as int,
                    data@.len() as int,
                ));
            }
            Some(p)
        },
        None => None,
    }
}

/// A frame a peer relayed to itself is dropped: parsing any relay frame
/// against the session it was built with yields nothing, so a self-looped
/// frame is never decoded and no counter moves for it.
pub proof fn lemma_relay_self_frame_dropped(
    session: Seq<u8>,
    sequence: u32,
    timestamp: u64,
    payload: Seq<u8>,
)
    ensures
        relay_parse_spec(relay_frame_bytes(session, sequence, timestamp, payload), session)
            is None,
{
    let data = relay_frame_bytes(session, sequence, timestamp, payload);
    if data.len() > SESSION_ID_LEN + HEADER_SIZE {
        assert(data.subrange(0, SESSION_ID_LEN as int) =~= padded_session(session));
    }
}

/// A relay frame from another session that carries any payload is
/// accepted, and parses back to the header and payload it was built from.
pub proof fn lemma_relay_cross_session(
    session: Seq<u8>,
    local: Seq<u8>,
    sequence: u32,
    timestamp: u64,
    payload: Seq<u8>,
)
    requires
        padded_session(session) != padded_session(local),
        0 < payload.len() <= MAX_PAYLOAD,
    ensures
        relay_parse_spec(relay_frame_bytes(session, sequence, timestamp, payload), local)
            matches Some(p) && p.0 == media_header(sequence, timestamp, payload.len() as int)
            && p.1 == payload,
{
    let data = relay_frame_bytes(session, sequence, timestamp, payload);
    let header = media_header(sequence, timestamp, payload.len() as int);
    assert(data.len() == SESSION_ID_LEN + HEADER_SIZE + payload.len());
    assert(data.subrange(0, SESSION_ID_LEN as int) =~= padded_session(session));
    let tail = data.subrange(SESSION_ID_LEN as int, data.len() as int);
    assert(tail =~= header.spec_bytes() + payload);
    crate::header::lemma_header_round_trip(header);
    assert(tail.subrange(0, HEADER_SIZE as int) =~= header.spec_bytes());
    assert(AudioPacketHeader::spec_parse(tail) == AudioPacketHeader::spec_parse(
        header.spec_bytes(),
    )) by {
        assert(forall|i: int| 0 <= i < HEADER_SIZE ==> tail[i] == header.spec_bytes()[i]);
    }
    assert(data.subrange((SESSION_ID_LEN + HEADER_SIZE) as int, data.len() as int) =~= payload);
}

/// The 9-byte ping frame: the ping tag, then the big-endian millisecond
/// timestamp.
pub open spec fn ping_bytes(timestamp_ms: u64) -> Seq<u8> {
    seq![PING_TAG] + be64_bytes(timestamp_ms)
}

/// Serialize a ping carrying the given millisecond timestamp.
pub fn build_ping(timestamp_ms: u64) -> (r: Vec<u8>)
    ensures
        r@ == ping_bytes(timestamp_ms),
        r@.len() == 9,
{
    let mut buf: Vec<u8> = Vec::new();
    buf.push(PING_TAG);
    buf.push(#[verifier::truncate] ((timestamp_ms >> 56) as u8));
    buf.push(#[verifier::truncate] ((timestamp_ms >> 48) as u8));
    buf.push(#[verifier::truncate] ((timestamp_ms >> 40) as u8));
    buf.push(#[verifier::truncate] ((timestamp_ms >> 32) as u8));
    buf.push(#[verifier::truncate] ((timestamp_ms >> 24) as u8));
    buf.push(#[verifier::truncate] ((timestamp_ms >> 16) as u8));
    buf.push(#[verifier::truncate] ((timestamp_ms >> 8) as u8));
    buf.push(#[verifier::truncate] (timestamp_ms as u8));
    proof {
        assert(buf@ =~= ping_bytes(timestamp_ms));
    }
    buf
}

/// The timestamp a pong echoes, if the frame is a well-formed pong: exactly
/// 9 bytes starting with the pong tag.
pub open spec fn pong_timestamp(data: Seq<u8>) -> Option<u64> {
    if data.len() == 9 && data[0] == PONG_TAG {
        Some(be64_value(data[1], data[2], data[3], data[4], data[5], data[6], data[7], data[8]))
    } else {
        None
    }
}

/// Parse a pong and return the millisecond timestamp it echoes.
pub fn parse_pong(data: &[u8]) -> (r: Option<u64>)
    ensures
        r == pong_timestamp(data@),
{
    if data.len() == 9 && data[0] == PONG_TAG {
        let ts: u64 = (data[1] as u64) * 0x100000000000000 + (data[2] as u64) * 0x1000000000000 + (
        data[3] as u64) * 0x10000000000 + (data[4] as u64) * 0x100000000 + (data[5] as u64)
            * 0x1000000 + (data[6] as u64) * 0x10000 + (data[7] as u64) * 0x100 + (data[8] as u64);
        Some(ts)
    } else {
        None
    }
}

/// A pong echoes its ping: reading the timestamp out of a pong built from a
/// ping's bytes yields the timestamp the ping carried.
pub proof fn lemma_ping_pong_round_trip(timestamp_ms: u64)
    ensures
        pong_timestamp(seq![PONG_TAG] + be64_bytes(timestamp_ms)) == Some(timestamp_ms),
{
    let data = seq![PONG_TAG] + be64_bytes(timestamp_ms);
    assert(data.len() == 9);
    crate::header::lemma_be64_round_trip(timestamp_ms);
}

/// Round-trip time from the echoed send time and the receive time, in
/// milliseconds, truncated to 32 bits.
pub fn measure_rtt(sent_ms: u64, now_ms: u64) -> (r: u32)
    requires
        sent_ms <= now_ms,
    ensures
        r == (now_ms - sent_ms) as u32,
{
    #[verifier::truncate] ((now_ms - sent_ms) as u32)
}

/// The 1-byte keepalive frame.
pub fn keepalive_frame() -> (r: Vec<u8>)
    ensures
        r@ =~= seq![0u8],
{
    let mut buf: Vec<u8> = Vec::new();
    buf.push(0);
    buf
}

} // verus!
