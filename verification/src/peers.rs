//! Per-peer receive bookkeeping: loss detection and statistics.
//!
//! The receive path tracks, for every remote peer, the furthest sequence
//! number seen and running statistics. Sequence comparison follows the
//! signed 32-bit distance rule, so gaps are detected across the sequence
//! wrap. When a new sequence jumps ahead of the furthest one by a small
//! gap, the gap is concealed: one synthesized frame per missing sequence,
//! pushed at the missing sequences. A frame from the most recent small gap
//! that arrives after all counts as recovered, once, and takes its loss
//! back.

use vstd::prelude::*;
use vstd::wrapping::u32_specs;
use crate::stun::NetAddr;

verus! {

/// Gaps of this many frames or more are not concealed.
pub const MAX_CONCEAL: u32 = 10;

/// Running statistics for one remote peer.
#[derive(Clone, Copy, Debug, PartialEq, Eq, Structural)]
pub struct PeerStats {
    /// Frames decoded from this peer.
    pub packets_received: u32,
    /// Frames counted as lost from this peer.
    pub packets_lost: u32,
    /// Sequence number of the last decoded frame.
    pub last_seq: u32,
    /// Most recent audio level, scaled to 0 through 100.
    pub audio_level: u32,
}

impl Default for PeerStats {
    /// Fresh statistics: all zero.
    fn default() -> (r: PeerStats)
        ensures
            r == (PeerStats { packets_received: 0, packets_lost: 0, last_seq: 0, audio_level: 0 }),
    {
        PeerStats { packets_received: 0, packets_lost: 0, last_seq: 0, audio_level: 0 }
    }
}

/// What a newly arrived sequence number means for loss recovery.
#[derive(Clone, Copy, Debug, PartialEq, Eq, Structural)]
pub struct LossPlan {
    /// The sequence that was expected next.
    pub expected: u32,
    /// How many frames the gap says were lost.
    pub lost: u32,
    /// How many frames to conceal, starting at `expected`: the whole gap
    /// when it is small, none otherwise.
    pub conceal: u32,
    /// One when this arrival fills a hole that was counted lost before, so
    /// the loss counters should come down by one; zero otherwise.
    pub recovered: u32,
}

/// One remote peer's receive-side record.
#[derive(Clone, Copy, Debug, PartialEq, Eq, Structural)]
pub struct PeerEntry {
    /// The peer's endpoint.
    pub addr: NetAddr,
    /// Furthest sequence observed from this peer (signed-distance order),
    /// used for loss detection.
    pub observed_seq: Option<u32>,
    /// First missing sequence of the most recent small gap.
    pub gap_start: u32,
    /// Length of that gap; zero when none is tracked.
    pub gap_len: u32,
    /// Bit k set: `gap_start + k` arrived late and was already recovered.
    pub gap_recovered: u16,
    /// Running statistics, updated when a frame decodes.
    pub stats: PeerStats,
}

/// What one arriving sequence does to a peer's record, and the loss plan it
/// yields. Ahead of the furthest sequence (wrapped difference under 2^31),
/// the gap counts as lost, a small gap is concealed and remembered; at the
/// expected sequence, plain advance; behind, the arrival recovers its loss
/// if it fills an unrecovered hole of the remembered gap.
pub open spec fn observe_step(e: PeerEntry, seq: u32) -> (PeerEntry, LossPlan) {
    match e.observed_seq {
        None => (
            PeerEntry { observed_seq: Some(seq), ..e },
            LossPlan { expected: seq, lost: 0, conceal: 0, recovered: 0 },
        ),
        Some(p) => {
            let expected = u32_specs::wrapping_add(p, 1);
            let d = u32_specs::wrapping_sub(seq, expected);
            if 1 <= d < 0x8000_0000 {
                let plan = LossPlan {
                    expected,
                    lost: d,
                    conceal: if d < MAX_CONCEAL {
                        d
                    } else {
                        0
                    },
                    recovered: 0,
                };
                if d < MAX_CONCEAL {
                    (
                        PeerEntry {
                            observed_seq: Some(seq),
                            gap_start: expected,
                            gap_len: d,
                            gap_recovered: 0,
                            ..e
                        },
                        plan,
                    )
                } else {
                    (PeerEntry { observed_seq: Some(seq), gap_len: 0, ..e }, plan)
                }
            } else if d == 0 {
                (
                    PeerEntry { observed_seq: Some(seq), ..e },
                    LossPlan { expected, lost: 0, conceal: 0, recovered: 0 },
                )
            } else {
                let off = u32_specs::wrapping_sub(seq, e.gap_start);
                if e.gap_len > 0 && off < e.gap_len && (e.gap_recovered >> (off as u16)) & 1
                    == 0 {
                    (
                        PeerEntry { gap_recovered: e.gap_recovered | (1u16 << (off as u16)), ..e },
                        LossPlan { expected, lost: 0, conceal: 0, recovered: 1 },
                    )
                } else {
                    (e, LossPlan { expected, lost: 0, conceal: 0, recovered: 0 })
                }
            }
        },
    }
}

/// The entry a fresh peer gets on its first frame.
pub open spec fn fresh_entry(addr: NetAddr, seq: u32) -> PeerEntry {
    PeerEntry {
        addr,
        observed_seq: Some(seq),
        gap_start: 0,
        gap_len: 0,
        gap_recovered: 0,
        stats: PeerStats { packets_received: 0, packets_lost: 0, last_seq: 0, audio_level: 0 },
    }
}

/// Some entry is for this address.
pub open spec fn has_addr(s: Seq<PeerEntry>, a: NetAddr) -> bool {
    exists|i: int| 0 <= i < s.len() && (#[trigger] s[i]).addr == a
}

/// Index of the first entry for this address.
pub open spec fn addr_idx(s: Seq<PeerEntry>, a: NetAddr) -> int
    decreases s.len(),
{
    if s.len() == 0 {
        0
    } else if s[0].addr == a {
        0
    } else {
        1 + addr_idx(s.subrange(1, s.len() as int), a)
    }
}

/// The first entry for a present address is a real index, is for that
/// address, and nothing before it is.
proof fn lemma_addr_idx_props(s: Seq<PeerEntry>, a: NetAddr)
    requires
        has_addr(s, a),
    ensures
        0 <= addr_idx(s, a) < s.len(),
        s[addr_idx(s, a)].addr == a,
        forall|j: int| 0 <= j < addr_idx(s, a) ==> (#[trigger] s[j]).addr != a,
    decreases s.len(),
{
    if s.len() == 0 {
    } else if s[0].addr == a {
    } else {
        let rest = s.subrange(1, s.len() as int);
        let i = choose|i: int| 0 <= i < s.len() && (#[trigger] s[i]).addr == a;
        assert(rest[i - 1].addr == a);
        lemma_addr_idx_props(rest, a);
        assert(s[addr_idx(s, a)] == rest[addr_idx(rest, a)]);
        assert forall|j: int| 0 <= j < addr_idx(s, a) implies (#[trigger] s[j]).addr != a by {
            if j > 0 {
                assert(rest[j - 1] == s[j]);
            }
        }
    }
}

/// A sound entry: the audio level within its 0-to-100 scale and a tracked
/// gap short enough to conceal (and to index its recovery bits).
pub open spec fn entry_ok(e: PeerEntry) -> bool {
    &&& e.stats.audio_level <= 100
    &&& e.gap_len < MAX_CONCEAL
}

/// The receive side's table of peers, one entry per address.
pub struct PeerRegistry {
    /// Entries, in order of first arrival, one per address.
    entries: Vec<PeerEntry>,
}

impl View for PeerRegistry {
    type V = Seq<PeerEntry>;

    closed spec fn view(&self) -> Seq<PeerEntry> {
        self.entries@
    }
}

impl PeerRegistry {
    /// Addresses are unique — one entry per peer — and every entry sound.
    pub open spec fn wf(self) -> bool {
        &&& forall|i: int, j: int|
            0 <= i < j < self@.len() ==> (#[trigger] self@[i]).addr != (#[trigger] self@[j]).addr
        &&& forall|i: int| 0 <= i < self@.len() ==> entry_ok(#[trigger] self@[i])
    }

    /// A fresh, empty registry.
    pub fn new() -> (r: PeerRegistry)
        ensures
            r@ == Seq::<PeerEntry>::empty(),
            r.wf(),
    {
        PeerRegistry { entries: Vec::new() }
    }

    /// Number of peers seen so far.
    pub fn len(&self) -> (r: usize)
        ensures
            r == self@.len(),
    {
        self.entries.len()
    }

    /// Find the entry index for an address.
    fn find(&self, addr: NetAddr) -> (r: Option<usize>)
        ensures
            r is Some <==> has_addr(self@, addr),
            r matches Some(i) ==> i as int == addr_idx(self@, addr) && i < self@.len(),
    {
        let mut i: usize = 0;
        let n = self.entries.len();
        while i < n
            invariant
                0 <= i <= n,
                n == self@.len(),
                forall|j: int| 0 <= j < i ==> (#[trigger] self@[j]).addr != addr,
            decreases n - i,
        {
            let e = self.entries[i];
            if e.addr.ip == addr.ip && e.addr.port == addr.port {
                proof {
                    assert(self@[i as int].addr == addr);
                    lemma_addr_idx_props(self@, addr);
                }
                return Some(i);
            }
            i = i + 1;
        }
        proof {
            assert(!has_addr(self@, addr));
        }
        None
    }

    /// Note an arriving media sequence from a peer: compute the loss plan
    /// against the record so far, and advance the record as `observe_step`
    /// says. A new peer gets a fresh entry and an empty plan.
    pub fn observe_sequence(&mut self, addr: NetAddr, seq: u32) -> (r: LossPlan)
        requires
            old(self).wf(),
        ensures
            final(self).wf(),
            has_addr(old(self)@, addr) ==> ({
                let i = addr_idx(old(self)@, addr);
                &&& r == observe_step(old(self)@[i], seq).1
                &&& final(self)@ == old(self)@.update(i, observe_step(old(self)@[i], seq).0)
            }),
            !has_addr(old(self)@, addr) ==> ({
                &&& r == (LossPlan { expected: seq, lost: 0, conceal: 0, recovered: 0 })
                &&& final(self)@ == old(self)@.push(fresh_entry(addr, seq))
            }),
    {
        match self.find(addr) {
            Some(i) => {
                let e = self.entries[i];
                let (updated, plan) = match e.observed_seq {
                    None => (
                        PeerEntry { observed_seq: Some(seq), ..e },
                        LossPlan { expected: seq, lost: 0, conceal: 0, recovered: 0 },
                    ),
                    Some(p) => {
                        let expected = p.wrapping_add(1);
                        let d = seq.wrapping_sub(expected);
                        if 1 <= d && d < 0x8000_0000 {
                            let plan = LossPlan {
                                expected,
                                lost: d,
                                conceal: if d < MAX_CONCEAL {
                                    d
                                } else {
                                    0
                                },
                                recovered: 0,
                            };
                            if d < MAX_CONCEAL {
                                (
                                    PeerEntry {
                                        observed_seq: Some(seq),
                                        gap_start: expected,
                                        gap_len: d,
                                        gap_recovered: 0,
                                        ..e
                                    },
                                    plan,
                                )
                            } else {
                                (PeerEntry { observed_seq: Some(seq), gap_len: 0, ..e }, plan)
                            }
                        } else if d == 0 {
                            (
                                PeerEntry { observed_seq: Some(seq), ..e },
                                LossPlan { expected, lost: 0, conceal: 0, recovered: 0 },
                            )
                        } else {
                            let off = seq.wrapping_sub(e.gap_start);
                            if e.gap_len > 0 && off < e.gap_len && (e.gap_recovered >> (
                            off as u16)) & 1 == 0 {
                                (
                                    PeerEntry {
                                        gap_recovered: e.gap_recovered | (1u16 << (off as u16)),
                                        ..e
                                    },
                                    LossPlan { expected, lost: 0, conceal: 0, recovered: 1 },
                                )
                            } else {
                                (e, LossPlan { expected, lost: 0, conceal: 0, recovered: 0 })
                            }
                        }
                    },
                };
                self.entries.set(i, updated);
                proof {
                    assert(updated == observe_step(old(self)@[i as int], seq).0);
                    assert forall|a: int, b: int|
                        0 <= a < b < self@.len() implies (#[trigger] self@[a]).addr != (
                    #[trigger] self@[b]).addr by {
                        assert(old(self)@[a].addr != old(self)@[b].addr);
                    }
                    assert forall|k: int| 0 <= k < self@.len() implies entry_ok(
                        #[trigger] self@[k],
                    ) by {
                        assert(entry_ok(old(self)@[k]));
                    }
                }
                plan
            },
            None => {
                let entry = PeerEntry {
                    addr,
                    observed_seq: Some(seq),
                    gap_start: 0,
                    gap_len: 0,
                    gap_recovered: 0,
                    stats: PeerStats {
                        packets_received: 0,
                        packets_lost: 0,
                        last_seq: 0,
                        audio_level: 0,
                    },
                };
                self.entries.push(entry);
                proof {
                    assert forall|a: int, b: int|
                        0 <= a < b < self@.len() implies (#[trigger] self@[a]).addr != (
                    #[trigger] self@[b]).addr by {
                        if b < self@.len() - 1 {
                            assert(old(self)@[a].addr != old(self)@[b].addr);
                        } else {
                            assert(!(old(self)@[a].addr == addr));
                        }
                    }
                    assert forall|k: int| 0 <= k < self@.len() implies entry_ok(
                        #[trigger] self@[k],
                    ) by {
                        if k < self@.len() - 1 {
                            assert(entry_ok(old(self)@[k]));
                        }
                    }
                }
                LossPlan { expected: seq, lost: 0, conceal: 0, recovered: 0 }
            },
        }
    }

    /// Record one decoded frame from a peer: bump its received counter, add
    /// the lost count the frame's arrival revealed, and remember its
    /// sequence and audio level. A peer without an entry gets a fresh one.
    pub fn record_decoded(&mut self, addr: NetAddr, seq: u32, lost: u32, level: u32)
        requires
            old(self).wf(),
            level <= 100,
        ensures
            final(self).wf(),
            has_addr(old(self)@, addr) ==> ({
                let i = addr_idx(old(self)@, addr);
                let s = old(self)@[i].stats;
                final(self)@ == old(self)@.update(
                    i,
                    (PeerEntry {
                        stats: PeerStats {
                            packets_received: u32_specs::wrapping_add(s.packets_received, 1),
                            packets_lost: u32_specs::wrapping_add(s.packets_lost, lost),
                            last_seq: seq,
                            audio_level: level,
                        },
                        ..old(self)@[i]
                    }),
                )
            }),
            !has_addr(old(self)@, addr) ==> final(self)@ == old(self)@.push(
                (PeerEntry {
                    addr,
                    observed_seq: None,
                    gap_start: 0,
                    gap_len: 0,
                    gap_recovered: 0,
                    stats: PeerStats {
                        packets_received: 1,
                        packets_lost: lost,
                        last_seq: seq,
                        audio_level: level,
                    },
                }),
            ),
    {
        match self.find(addr) {
            Some(i) => {
                let e = self.entries[i];
                let stats = PeerStats {
                    packets_received: e.stats.packets_received.wrapping_add(1),
                    packets_lost: e.stats.packets_lost.wrapping_add(lost),
                    last_seq: seq,
                    audio_level: level,
                };
                self.entries.set(i, PeerEntry { stats, ..e });
                proof {
                    assert forall|a: int, b: int|
                        0 <= a < b < self@.len() implies (#[trigger] self@[a]).addr != (
                    #[trigger] self@[b]).addr by {
                        assert(old(self)@[a].addr != old(self)@[b].addr);
                    }
                    assert forall|k: int| 0 <= k < self@.len() implies entry_ok(
                        #[trigger] self@[k],
                    ) by {
                        assert(entry_ok(old(self)@[k]));
                    }
                }
            },
            None => {
                let entry = PeerEntry {
                    addr,
                    observed_seq: None,
                    gap_start: 0,
                    gap_len: 0,
                    gap_recovered: 0,
                    stats: PeerStats {
                        packets_received: 1,
                        packets_lost: lost,
                        last_seq: seq,
                        audio_level: level,
                    },
                };
                self.entries.push(entry);
                proof {
                    assert forall|a: int, b: int|
                        0 <= a < b < self@.len() implies (#[trigger] self@[a]).addr != (
                    #[trigger] self@[b]).addr by {
                        if b < self@.len() - 1 {
                            assert(old(self)@[a].addr != old(self)@[b].addr);
                        } else {
                            assert(!(old(self)@[a].addr == addr));
                        }
                    }
                    assert forall|k: int| 0 <= k < self@.len() implies entry_ok(
                        #[trigger] self@[k],
                    ) by {
                        if k < self@.len() - 1 {
                            assert(entry_ok(old(self)@[k]));
                        }
                    }
                }
            },
        }
    }

    /// Take back losses that late arrivals recovered: the peer's lost
    /// counter comes down by `n`, stopping at zero. A peer without an entry
    /// is left alone.
    pub fn record_recovered(&mut self, addr: NetAddr, n: u32)
        requires
            old(self).wf(),
        ensures
            final(self).wf(),
            has_addr(old(self)@, addr) ==> ({
                let i = addr_idx(old(self)@, addr);
                let s = old(self)@[i].stats;
                final(self)@ == old(self)@.update(
                    i,
                    (PeerEntry {
                        stats: PeerStats {
                            packets_lost: (if s.packets_lost - n >= 0 {
                                (s.packets_lost - n) as u32
                            } else {
                                0
                            }),
                            ..s
                        },
                        ..old(self)@[i]
                    }),
                )
            }),
            !has_addr(old(self)@, addr) ==> *final(self) == *old(self),
    {
        match self.find(addr) {
            Some(i) => {
                let e = self.entries[i];
                let stats = PeerStats {
                    packets_lost: e.stats.packets_lost.saturating_sub(n),
                    ..e.stats
                };
                self.entries.set(i, PeerEntry { stats, ..e });
                proof {
                    assert forall|a: int, b: int|
                        0 <= a < b < self@.len() implies (#[trigger] self@[a]).addr != (
                    #[trigger] self@[b]).addr by {
                        assert(old(self)@[a].addr != old(self)@[b].addr);
                    }
                    assert forall|k: int| 0 <= k < self@.len() implies entry_ok(
                        #[trigger] self@[k],
                    ) by {
                        assert(entry_ok(old(self)@[k]));
                    }
                }
            },
            None => {},
        }
    }

    /// The statistics recorded for a peer, if any.
    pub fn stats_of(&self, addr: NetAddr) -> (r: Option<PeerStats>)
        ensures
            r is Some <==> has_addr(self@, addr),
            r matches Some(s) ==> s == self@[addr_idx(self@, addr)].stats,
    {
        match self.find(addr) {
            Some(i) => Some(self.entries[i].stats),
            None => None,
        }
    }

    /// Every peer with its statistics, in order of first arrival.
    pub fn all_entries(&self) -> (r: Vec<PeerEntry>)
        ensures
            r@ == self@,
    {
        let mut out: Vec<PeerEntry> = Vec::new();
        let mut i: usize = 0;
        let n = self.entries.len();
        while i < n
            invariant
                0 <= i <= n,
                n == self@.len(),
                out@ == self@.subrange(0, i as int),
            decreases n - i,
        {
            out.push(self.entries[i]);
            i = i + 1;
            proof {
                assert(out@ == self@.subrange(0, i as int));
            }
        }
        proof {
            assert(out@ == self@.subrange(0, n as int));
            assert(self@.subrange(0, n as int) == self@);
        }
        out
    }
}

/// A frame from the remembered gap that arrives late takes exactly one loss
/// back, and only once: the first late arrival of a missing sequence yields
/// a recovery, a repeat of the same sequence yields none.
pub proof fn lemma_gap_recovery_once(e: PeerEntry, seq: u32)
    requires
        e.observed_seq is Some,
        entry_ok(e),
        ({
            let expected = u32_specs::wrapping_add(e.observed_seq.unwrap(), 1);
            u32_specs::wrapping_sub(seq, expected) >= 0x8000_0000
        }),
        e.gap_len > 0,
        u32_specs::wrapping_sub(seq, e.gap_start) < e.gap_len,
        (e.gap_recovered >> (u32_specs::wrapping_sub(seq, e.gap_start) as u16)) & 1 == 0,
    ensures
        observe_step(e, seq).1.recovered == 1,
        observe_step(observe_step(e, seq).0, seq).1.recovered == 0,
{
    let off = u32_specs::wrapping_sub(seq, e.gap_start);
    let e2 = observe_step(e, seq).0;
    assert((e2.gap_recovered >> (off as u16)) & 1 == 1) by {
        let m = e.gap_recovered;
        let k = off as u16;
        assert(k < 16);
        assert(((m | (1u16 << k)) >> k) & 1 == 1) by (bit_vector)
            requires
                k < 16,
        ;
    }
}

} // verus!
