//! Core of a peer-to-peer low-latency voice transport engine.
//!
//! The library holds the verified logic: wire framing for audio packets and
//! control frames, STUN response parsing and NAT classification, the adaptive
//! per-peer jitter buffer, PCM framing, the playback ring, per-peer loss
//! accounting, and the stream controller's state machine. Device access,
//! sockets and the codec itself live outside, in the surrounding application,
//! which feeds this library plain values.

pub mod control;
pub mod devices;
pub mod fifo;
pub mod framer;
pub mod header;
pub mod jitter;
pub mod peers;
pub mod ring;
pub mod stun;
pub mod wire;

pub use control::StreamError;
pub use control::UdpConnectionInfo;
pub use control::UdpStats;
pub use control::UdpStreamState;
pub use devices::get_audio_info;
pub use devices::AudioDevice;
pub use devices::AudioInfo;
pub use devices::AudioStreamConfig;
pub use devices::StreamState;
pub use header::AudioPacketHeader;
pub use header::HEADER_SIZE;
pub use jitter::JitterBuffer;
pub use peers::PeerRegistry;
pub use peers::PeerStats;
pub use stun::NatKind;
pub use stun::NetAddr;
