//! The stream controller: lifecycle, shared settings and counters.
//!
//! The controller moves through idle, bound and streaming states. Starting a
//! stream needs a bound socket and, in direct mode, at least one peer, or,
//! in relay mode, a relay address and session id; a transition whose
//! precondition fails is rejected with the matching error. Stopping clears
//! the socket, the peer list and the counters and resets the send sequence.

use vstd::prelude::*;
use vstd::wrapping::u32_specs;
use crate::stun::NetAddr;

verus! {

/// Smallest encoder bitrate, in kbit/s.
pub const MIN_BITRATE: u32 = 16;

/// Largest encoder bitrate, in kbit/s.
pub const MAX_BITRATE: u32 = 256;

/// Default encoder bitrate, in kbit/s.
pub const DEFAULT_BITRATE: u32 = 96;

/// Smallest jitter target a caller may ask for, in frames.
pub const MIN_JITTER_REQUEST: usize = 2;

/// Largest jitter target a caller may ask for, in frames.
pub const MAX_JITTER_REQUEST: usize = 15;

/// Why a control-plane operation was rejected.
#[derive(Clone, Copy, Debug, PartialEq, Eq, Structural)]
pub enum StreamError {
    /// A stream is already running.
    AlreadyRunning,
    /// No socket has been bound.
    NoSocket,
    /// Direct mode needs at least one peer.
    NoPeers,
    /// Relay mode needs a relay address.
    NoRelayAddr,
    /// Relay mode needs a session id.
    NoSessionId,
}

/// A point-in-time statistics snapshot.
#[derive(Clone, Debug, PartialEq, Eq, Structural)]
pub struct UdpStats {
    /// Frames sent since the stream started.
    pub packets_sent: u32,
    /// Frames received since the stream started.
    pub packets_received: u32,
    /// Frames counted as lost since the stream started.
    pub packets_lost: u32,
    /// Peers currently configured.
    pub peer_count: usize,
    /// Whether a stream is running.
    pub is_running: bool,
    /// Frames currently buffered across all jitter buffers.
    pub jitter_buffer_size: usize,
    /// Sum of the jitter buffers' target depths.
    pub jitter_buffer_target: usize,
}

/// Local endpoint facts exposed to the shell.
#[derive(Clone, Debug, PartialEq, Eq)]
pub struct UdpConnectionInfo {
    /// Port the socket is bound to.
    pub local_port: u16,
    /// The remote peer, printed, if one is set.
    pub remote_addr: Option<String>,
    /// Whether a stream is running.
    pub is_connected: bool,
}

/// The shared state of the engine, as the control plane sees it.
#[verifier::ext_equal]
pub struct UdpStreamState {
    /// The bound local port; stands for the open socket.
    pub bound_port: Option<u16>,
    /// Whether the send and receive pipelines run.
    pub is_running: bool,
    /// Whether captured audio is discarded before encoding.
    pub is_muted: bool,
    /// Next send sequence number.
    pub sequence: u32,
    /// Configured remote peers.
    pub peers: Vec<NetAddr>,
    /// Frames sent since start.
    pub packets_sent: u32,
    /// Frames received since start.
    pub packets_received: u32,
    /// Frames lost since start.
    pub packets_lost: u32,
    /// Microphone level for the UI, 0 through 100.
    pub input_level: u32,
    /// Encoder bitrate in kbit/s.
    pub bitrate: u32,
    /// Target depth handed to new jitter buffers, in frames.
    pub jitter_target: usize,
    /// Selected capture device, if any.
    pub input_device: Option<String>,
    /// Selected playback device, if any.
    pub output_device: Option<String>,
    /// The relay endpoint, in relay mode.
    pub relay_addr: Option<NetAddr>,
    /// This client's relay session id, in relay mode.
    pub session_id: Option<Vec<u8>>,
}

impl Default for UdpStreamState {
    /// The idle state: nothing bound, nothing running, default settings.
    fn default() -> (r: UdpStreamState)
        ensures
            r.bound_port is None,
            !r.is_running,
            !r.is_muted,
            r.sequence == 0,
            r.peers@.len() == 0,
            r.packets_sent == 0,
            r.packets_received == 0,
            r.packets_lost == 0,
            r.input_level == 0,
            r.bitrate == DEFAULT_BITRATE,
            r.jitter_target == MIN_JITTER_REQUEST,
            r.input_device is None,
            r.output_device is None,
            r.relay_addr is None,
            r.session_id is None,
    {
        UdpStreamState {
            bound_port: None,
            is_running: false,
            is_muted: false,
            sequence: 0,
            peers: Vec::new(),
            packets_sent: 0,
            packets_received: 0,
            packets_lost: 0,
            input_level: 0,
            bitrate: DEFAULT_BITRATE,
            jitter_target: MIN_JITTER_REQUEST,
            input_device: None,
            output_device: None,
            relay_addr: None,
            session_id: None,
        }
    }
}

impl UdpStreamState {
    /// Record that the socket is bound to `actual_port`. Rejected while a
    /// stream runs; otherwise only the bound port changes.
    pub fn bind(&mut self, actual_port: u16) -> (r: Result<(), StreamError>)
        ensures
            old(self).is_running ==> r == Result::<(), StreamError>::Err(
                StreamError::AlreadyRunning,
            ) && *final(self) == *old(self),
            !old(self).is_running ==> r is Ok && *final(self) == (UdpStreamState {
                bound_port: Some(actual_port),
                ..*old(self)
            }),
    {
        if self.is_running {
            return Err(StreamError::AlreadyRunning);
        }
        self.bound_port = Some(actual_port);
        Ok(())
    }

    /// Add one remote peer.
    pub fn add_peer(&mut self, addr: NetAddr)
        ensures
            final(self).peers@ == old(self).peers@.push(addr),
            *final(self) == (UdpStreamState { peers: final(self).peers, ..*old(self) }),
    {
        self.peers.push(addr);
    }

    /// Replace the peer list.
    pub fn set_peers(&mut self, peers: Vec<NetAddr>)
        ensures
            *final(self) == (UdpStreamState { peers, ..*old(self) }),
    {
        self.peers = peers;
    }

    /// Forget all peers.
    pub fn clear_peers(&mut self)
        ensures
            final(self).peers@.len() == 0,
            *final(self) == (UdpStreamState { peers: final(self).peers, ..*old(self) }),
    {
        self.peers.clear();
    }

    /// Mute or unmute the microphone.
    pub fn set_muted(&mut self, muted: bool)
        ensures
            *final(self) == (UdpStreamState { is_muted: muted, ..*old(self) }),
    {
        self.is_muted = muted;
    }

    /// Select the capture and playback devices.
    pub fn set_devices(&mut self, input: Option<String>, output: Option<String>)
        ensures
            *final(self) == (UdpStreamState {
                input_device: input,
                output_device: output,
                ..*old(self)
            }),
    {
        self.input_device = input;
        self.output_device = output;
    }

    /// Set the encoder bitrate, clamped to the allowed range.
    pub fn set_bitrate(&mut self, bitrate_kbps: u32)
        ensures
            *final(self) == (UdpStreamState { bitrate: final(self).bitrate, ..*old(self) }),
            final(self).bitrate == (if bitrate_kbps < MIN_BITRATE {
                MIN_BITRATE
            } else if bitrate_kbps > MAX_BITRATE {
                MAX_BITRATE
            } else {
                bitrate_kbps
            }),
            MIN_BITRATE <= final(self).bitrate <= MAX_BITRATE,
    {
        self.bitrate = if bitrate_kbps < MIN_BITRATE {
            MIN_BITRATE
        } else if bitrate_kbps > MAX_BITRATE {
            MAX_BITRATE
        } else {
            bitrate_kbps
        };
    }

    /// Set the jitter target handed to the buffers, clamped to the range a
    /// caller may request.
    pub fn set_jitter_target(&mut self, frames: usize)
        ensures
            *final(self) == (UdpStreamState {
                jitter_target: final(self).jitter_target,
                ..*old(self)
            }),
            final(self).jitter_target == (if frames < MIN_JITTER_REQUEST {
                MIN_JITTER_REQUEST
            } else if frames > MAX_JITTER_REQUEST {
                MAX_JITTER_REQUEST
            } else {
                frames
            }),
            MIN_JITTER_REQUEST <= final(self).jitter_target <= MAX_JITTER_REQUEST,
    {
        self.jitter_target = if frames < MIN_JITTER_REQUEST {
            MIN_JITTER_REQUEST
        } else if frames > MAX_JITTER_REQUEST {
            MAX_JITTER_REQUEST
        } else {
            frames
        };
    }

    /// Record the microphone level for the UI.
    pub fn set_input_level(&mut self, level: u32)
        ensures
            *final(self) == (UdpStreamState { input_level: level, ..*old(self) }),
    {
        self.input_level = level;
    }

    /// Configure the relay endpoint and this client's session id.
    pub fn set_relay(&mut self, addr: NetAddr, session_id: Vec<u8>)
        ensures
            *final(self) == (UdpStreamState {
                relay_addr: Some(addr),
                session_id: Some(session_id),
                ..*old(self)
            }),
    {
        self.relay_addr = Some(addr);
        self.session_id = Some(session_id);
    }

    /// Start streaming directly to the configured peers. Needs an idle
    /// controller, a bound socket and at least one peer; each missing
    /// precondition is reported, in that order.
    pub fn start_direct(&mut self) -> (r: Result<(), StreamError>)
        ensures
            old(self).is_running ==> r == Result::<(), StreamError>::Err(
                StreamError::AlreadyRunning,
            ) && *final(self) == *old(self),
            !old(self).is_running && old(self).bound_port is None ==> r == Result::<
                (),
                StreamError,
            >::Err(StreamError::NoSocket) && *final(self) == *old(self),
            !old(self).is_running && old(self).bound_port is Some && old(self).peers@.len() == 0
                ==> r == Result::<(), StreamError>::Err(StreamError::NoPeers) && *final(self)
                == *old(self),
            !old(self).is_running && old(self).bound_port is Some && old(self).peers@.len() > 0
                ==> r is Ok && *final(self) == (UdpStreamState {
                is_running: true,
                ..*old(self)
            }),
    {
        if self.is_running {
            return Err(StreamError::AlreadyRunning);
        }
        if self.bound_port.is_none() {
            return Err(StreamError::NoSocket);
        }
        if self.peers.len() == 0 {
            return Err(StreamError::NoPeers);
        }
        self.is_running = true;
        Ok(())
    }

    /// Start streaming through the relay. Needs an idle controller, a bound
    /// socket, a relay address and a session id; each missing precondition
    /// is reported, in that order.
    pub fn start_relay(&mut self) -> (r: Result<(), StreamError>)
        ensures
            old(self).is_running ==> r == Result::<(), StreamError>::Err(
                StreamError::AlreadyRunning,
            ) && *final(self) == *old(self),
            !old(self).is_running && old(self).bound_port is None ==> r == Result::<
                (),
                StreamError,
            >::Err(StreamError::NoSocket) && *final(self) == *old(self),
            !old(self).is_running && old(self).bound_port is Some && old(self).relay_addr is None
                ==> r == Result::<(), StreamError>::Err(StreamError::NoRelayAddr) && *final(self)
                == *old(self),
            !old(self).is_running && old(self).bound_port is Some && old(self).relay_addr is Some
                && old(self).session_id is None ==> r == Result::<(), StreamError>::Err(
                StreamError::NoSessionId,
            ) && *final(self) == *old(self),
            !old(self).is_running && old(self).bound_port is Some && old(self).relay_addr is Some
                && old(self).session_id is Some ==> r is Ok && *final(self) == (UdpStreamState {
                is_running: true,
                ..*old(self)
            }),
    {
        if self.is_running {
            return Err(StreamError::AlreadyRunning);
        }
        if self.bound_port.is_none() {
            return Err(StreamError::NoSocket);
        }
        if self.relay_addr.is_none() {
            return Err(StreamError::NoRelayAddr);
        }
        if self.session_id.is_none() {
            return Err(StreamError::NoSessionId);
        }
        self.is_running = true;
        Ok(())
    }

    /// Stop streaming: release the socket, forget the peers, zero the
    /// counters and reset the send sequence. Settings and devices survive.
    pub fn stop(&mut self)
        ensures
            *final(self) == (UdpStreamState {
                bound_port: None,
                is_running: false,
                sequence: 0,
                peers: final(self).peers,
                packets_sent: 0,
                packets_received: 0,
                packets_lost: 0,
                ..*old(self)
            }),
            final(self).peers@.len() == 0,
    {
        self.is_running = false;
        self.bound_port = None;
        self.sequence = 0;
        self.peers.clear();
        self.packets_sent = 0;
        self.packets_received = 0;
        self.packets_lost = 0;
    }

    /// Take the next send sequence number. Within one session consecutive
    /// frames carry consecutive sequence numbers, modulo 32 bits.
    pub fn next_sequence(&mut self) -> (r: u32)
        ensures
            r == old(self).sequence,
            *final(self) == (UdpStreamState {
                sequence: u32_specs::wrapping_add(old(self).sequence, 1),
                ..*old(self)
            }),
    {
        let seq = self.sequence;
        self.sequence = self.sequence.wrapping_add(1);
        seq
    }

    /// Count frames handed to the socket.
    pub fn record_sent(&mut self, n: u32)
        ensures
            *final(self) == (UdpStreamState {
                packets_sent: u32_specs::wrapping_add(old(self).packets_sent, n),
                ..*old(self)
            }),
    {
        self.packets_sent = self.packets_sent.wrapping_add(n);
    }

    /// Count frames received from the socket.
    pub fn record_received(&mut self, n: u32)
        ensures
            *final(self) == (UdpStreamState {
                packets_received: u32_specs::wrapping_add(old(self).packets_received, n),
                ..*old(self)
            }),
    {
        self.packets_received = self.packets_received.wrapping_add(n);
    }

    /// Count frames the loss detector reported missing.
    pub fn record_lost(&mut self, n: u32)
        ensures
            *final(self) == (UdpStreamState {
                packets_lost: u32_specs::wrapping_add(old(self).packets_lost, n),
                ..*old(self)
            }),
    {
        self.packets_lost = self.packets_lost.wrapping_add(n);
    }

    /// Take back losses that late arrivals recovered: the lost counter
    /// comes down by `n`, stopping at zero.
    pub fn record_recovered(&mut self, n: u32)
        ensures
            *final(self) == (UdpStreamState {
                packets_lost: (if old(self).packets_lost - n >= 0 {
                    (old(self).packets_lost - n) as u32
                } else {
                    0
                }),
                ..*old(self)
            }),
    {
        self.packets_lost = self.packets_lost.saturating_sub(n);
    }

    /// A statistics snapshot; the caller supplies the jitter buffers'
    /// current total size and target.
    pub fn stats(&self, jitter_size: usize, jitter_target: usize) -> (r: UdpStats)
        ensures
            r == (UdpStats {
                packets_sent: self.packets_sent,
                packets_received: self.packets_received,
                packets_lost: self.packets_lost,
                peer_count: self.peers@.len() as usize,
                is_running: self.is_running,
                jitter_buffer_size: jitter_size,
                jitter_buffer_target: jitter_target,
            }),
    {
        UdpStats {
            packets_sent: self.packets_sent,
            packets_received: self.packets_received,
            packets_lost: self.packets_lost,
            peer_count: self.peers.len(),
            is_running: self.is_running,
            jitter_buffer_size: jitter_size,
            jitter_buffer_target: jitter_target,
        }
    }
}

} // verus!
