//! The fixed-layout audio packet header.
//!
//! Every media datagram starts with a 19-byte header: a 32-bit sequence
//! number, a 64-bit microsecond timestamp, a 32-bit sample rate, one channel
//! byte and a 16-bit payload length, all big-endian. Encoding and decoding
//! round-trip bit-exactly.

use vstd::prelude::*;

verus! {

/// Number of bytes an encoded header occupies on the wire.
pub const HEADER_SIZE: usize = 19;

/// The header prefixed to every audio datagram.
#[derive(Clone, Debug, PartialEq, Eq, Structural)]
pub struct AudioPacketHeader {
    /// Monotonically increasing frame sequence number.
    pub sequence: u32,
    /// Capture timestamp in microseconds.
    pub timestamp: u64,
    /// Sample rate in Hz (48000 in this engine).
    pub sample_rate: u32,
    /// Channel count (1 or 2).
    pub channels: u8,
    /// Length in bytes of the codec payload that follows the header.
    pub payload_len: u16,
}

/// Big-endian bytes of a 16-bit integer.
pub open spec fn be16_bytes(x: u16) -> Seq<u8> {
    seq![(x >> 8) as u8, x as u8]
}

/// Big-endian bytes of a 32-bit integer.
pub open spec fn be32_bytes(x: u32) -> Seq<u8> {
    seq![(x >> 24) as u8, (x >> 16) as u8, (x >> 8) as u8, x as u8]
}

/// Big-endian bytes of a 64-bit integer.
pub open spec fn be64_bytes(x: u64) -> Seq<u8> {
    seq![
        (x >> 56) as u8,
        (x >> 48) as u8,
        (x >> 40) as u8,
        (x >> 32) as u8,
        (x >> 24) as u8,
        (x >> 16) as u8,
        (x >> 8) as u8,
        x as u8,
    ]
}

/// The 16-bit integer written big-endian as the two given bytes.
pub open spec fn be16_value(b0: u8, b1: u8) -> u16 {
    (b0 * 0x100 + b1) as u16
}

/// The 32-bit integer written big-endian as the four given bytes.
pub open spec fn be32_value(b0: u8, b1: u8, b2: u8, b3: u8) -> u32 {
    (b0 * 0x1000000 + b1 * 0x10000 + b2 * 0x100 + b3) as u32
}

/// The 64-bit integer written big-endian as the eight given bytes.
pub open spec fn be64_value(
    b0: u8,
    b1: u8,
    b2: u8,
    b3: u8,
    b4: u8,
    b5: u8,
    b6: u8,
    b7: u8,
) -> u64 {
    (b0 * 0x100000000000000 + b1 * 0x1000000000000 + b2 * 0x10000000000 + b3 * 0x100000000
        + b4 * 0x1000000 + b5 * 0x10000 + b6 * 0x100 + b7) as u64
}

/// Reading back the big-endian bytes of a 16-bit integer yields the integer.
pub proof fn lemma_be16_round_trip(x: u16)
    ensures
        be16_value((x >> 8) as u8, x as u8) == x,
{
    assert(((x >> 8) as u8) * 0x100 + (x as u8) == x) by (bit_vector);
}

/// Reading back the big-endian bytes of a 32-bit integer yields the integer.
pub proof fn lemma_be32_round_trip(x: u32)
    ensures
        be32_value((x >> 24) as u8, (x >> 16) as u8, (x >> 8) as u8, x as u8) == x,
{
    assert(((x >> 24) as u8) * 0x1000000 + ((x >> 16) as u8) * 0x10000 + ((x >> 8) as u8) * 0x100
        + (x as u8) == x) by (bit_vector);
}

/// Reading back the big-endian bytes of a 64-bit integer yields the integer.
pub proof fn lemma_be64_round_trip(x: u64)
    ensures
        be64_value(
            (x >> 56) as u8,
            (x >> 48) as u8,
            (x >> 40) as u8,
            (x >> 32) as u8,
            (x >> 24) as u8,
            (x >> 16) as u8,
            (x >> 8) as u8,
            x as u8,
        ) == x,
{
    assert(((x >> 56) as u8) * 0x100000000000000 + ((x >> 48) as u8) * 0x1000000000000 + ((x
        >> 40) as u8) * 0x10000000000 + ((x >> 32) as u8) * 0x100000000 + ((x >> 24) as u8)
        * 0x1000000 + ((x >> 16) as u8) * 0x10000 + ((x >> 8) as u8) * 0x100 + (x as u8) == x)
        by (bit_vector);
}

impl AudioPacketHeader {
    /// The 19 bytes this header occupies on the wire.
    pub open spec fn spec_bytes(self) -> Seq<u8> {
        be32_bytes(self.sequence) + be64_bytes(self.timestamp) + be32_bytes(self.sample_rate)
            + seq![self.channels] + be16_bytes(self.payload_len)
    }

    /// The header encoded at the start of the given byte string.
    pub open spec fn spec_parse(data: Seq<u8>) -> AudioPacketHeader
        recommends
            data.len() >= HEADER_SIZE,
    {
        AudioPacketHeader {
            sequence: be32_value(data[0], data[1], data[2], data[3]),
            timestamp: be64_value(
                data[4],
                data[5],
                data[6],
                data[7],
                data[8],
                data[9],
                data[10],
                data[11],
            ),
            sample_rate: be32_value(data[12], data[13], data[14], data[15]),
            channels: data[16],
            payload_len: be16_value(data[17], data[18]),
        }
    }

    /// Serialize the header to its 19-byte wire form.
    pub fn to_bytes(&self) -> (r: Vec<u8>)
        ensures
            r@ == self.spec_bytes(),
            r@.len() == HEADER_SIZE,
    {
        let mut buf: Vec<u8> = Vec::new();
        buf.push(#[verifier::truncate] ((self.sequence >> 24) as u8));
        buf.push(#[verifier::truncate] ((self.sequence >> 16) as u8));
        buf.push(#[verifier::truncate] ((self.sequence >> 8) as u8));
        buf.push(#[verifier::truncate] (self.sequence as u8));
        buf.push(#[verifier::truncate] ((self.timestamp >> 56) as u8));
        buf.push(#[verifier::truncate] ((self.timestamp >> 48) as u8));
        buf.push(#[verifier::truncate] ((self.timestamp >> 40) as u8));
        buf.push(#[verifier::truncate] ((self.timestamp >> 32) as u8));
        buf.push(#[verifier::truncate] ((self.timestamp >> 24) as u8));
        buf.push(#[verifier::truncate] ((self.timestamp >> 16) as u8));
        buf.push(#[verifier::truncate] ((self.timestamp >> 8) as u8));
        buf.push(#[verifier::truncate] (self.timestamp as u8));
        buf.push(#[verifier::truncate] ((self.sample_rate >> 24) as u8));
        buf.push(#[verifier::truncate] ((self.sample_rate >> 16) as u8));
        buf.push(#[verifier::truncate] ((self.sample_rate >> 8) as u8));
        buf.push(#[verifier::truncate] (self.sample_rate as u8));
        buf.push(self.channels);
        buf.push(#[verifier::truncate] ((self.payload_len >> 8) as u8));
        buf.push(#[verifier::truncate] (self.payload_len as u8));
        proof {
            assert(buf@ =~= self.spec_bytes());
        }
        buf
    }

    /// Parse a header from the start of `data`; inputs shorter than 19 bytes
    /// are rejected.
    pub fn from_bytes(data: &[u8]) -> (r: Option<AudioPacketHeader>)
        ensures
            r is Some <==> data@.len() >= HEADER_SIZE,
            r matches Some(h) ==> h == AudioPacketHeader::spec_parse(data@),
    {
        if data.len() < HEADER_SIZE {
            return None;
        }
        let sequence: u32 = (data[0] as u32) * 0x1000000 + (data[1] as u32) * 0x10000 + (
        data[2] as u32) * 0x100 + (data[3] as u32);
        let timestamp: u64 = (data[4] as u64) * 0x100000000000000 + (data[5] as u64)
            * 0x1000000000000 + (data[6] as u64) * 0x10000000000 + (data[7] as u64) * 0x100000000
            + (data[8] as u64) * 0x1000000 + (data[9] as u64) * 0x10000 + (data[10] as u64) * 0x100
            + (data[11] as u64);
        let sample_rate: u32 = (data[12] as u32) * 0x1000000 + (data[13] as u32) * 0x10000 + (
        data[14] as u32) * 0x100 + (data[15] as u32);
        let channels: u8 = data[16];
        let payload_len: u16 = (data[17] as u16) * 0x100 + (data[18] as u16);
        Some(AudioPacketHeader { sequence, timestamp, sample_rate, channels, payload_len })
    }
}

/// Decoding an encoded header yields the header back, bit-exactly.
pub proof fn lemma_header_round_trip(h: AudioPacketHeader)
    ensures
        AudioPacketHeader::spec_parse(h.spec_bytes()) == h,
{
    lemma_be32_round_trip(h.sequence);
    lemma_be64_round_trip(h.timestamp);
    lemma_be32_round_trip(h.sample_rate);
    lemma_be16_round_trip(h.payload_len);
}

} // verus!
