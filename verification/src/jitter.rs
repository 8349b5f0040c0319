//! The adaptive per-peer jitter buffer.
//!
//! Decoded frames arrive keyed by sequence number and leave in playout order.
//! The buffer keeps its entries sorted by sequence, evicts the oldest entries
//! when it grows past twice its target depth, discards frames that arrive far
//! too late, and adapts the target depth every hundred pushes from the
//! observed ratio of late frames. The target depth always stays within
//! [`MIN_JITTER_BUFFER`, `MAX_JITTER_BUFFER`].

use vstd::prelude::*;
use vstd::wrapping::u32_specs;

verus! {

/// Smallest allowed target depth, in 10 ms frames (20 ms).
pub const MIN_JITTER_BUFFER: usize = 2;

/// Largest allowed target depth, in 10 ms frames (100 ms).
pub const MAX_JITTER_BUFFER: usize = 10;

/// A reordering buffer for one remote peer, generic over the frame payload.
pub struct JitterBuffer<F> {
    /// Buffered frames, keyed by sequence, strictly ascending.
    entries: Vec<(u32, F)>,
    /// The next sequence number due for playout.
    next_seq: u32,
    /// Target depth in frames.
    target_size: usize,
    /// Frames discarded as too old since the last adaptation.
    late_packets: u32,
    /// Frames pushed since the last adaptation.
    total_packets: u32,
}

/// The mathematical state of a jitter buffer.
#[verifier::ext_equal]
pub ghost struct JitterModel<F> {
    /// Buffered frames, keyed by sequence, strictly ascending.
    pub frames: Seq<(u32, F)>,
    /// The next sequence number due for playout.
    pub next: u32,
    /// Target depth in frames.
    pub target: int,
    /// Frames discarded as too old since the last adaptation.
    pub late: u32,
    /// Frames pushed since the last adaptation.
    pub total: u32,
}

/// Entry keys are strictly ascending.
pub open spec fn keys_sorted<F>(s: Seq<(u32, F)>) -> bool {
    forall|i: int, j: int| 0 <= i < j < s.len() ==> (#[trigger] s[i]).0 < (#[trigger] s[j]).0
}

/// Some entry carries the key `k`.
pub open spec fn has_key<F>(s: Seq<(u32, F)>, k: u32) -> bool {
    exists|i: int| 0 <= i < s.len() && (#[trigger] s[i]).0 == k
}

/// Index of the first entry carrying the key `k`.
pub open spec fn idx_of<F>(s: Seq<(u32, F)>, k: u32) -> int
    decreases s.len(),
{
    if s.len() == 0 {
        0
    } else if s[0].0 == k {
        0
    } else {
        1 + idx_of(s.subrange(1, s.len() as int), k)
    }
}

/// A well-formed buffer: sorted unique keys and a target depth in bounds.
pub open spec fn jb_wf<F>(m: JitterModel<F>) -> bool {
    &&& keys_sorted(m.frames)
    &&& MIN_JITTER_BUFFER <= m.target <= MAX_JITTER_BUFFER
}

/// The given target depth clamped into the allowed range.
pub open spec fn clamp_target(size: int) -> int {
    if size < MIN_JITTER_BUFFER {
        MIN_JITTER_BUFFER as int
    } else if size > MAX_JITTER_BUFFER {
        MAX_JITTER_BUFFER as int
    } else {
        size
    }
}

/// A pushed frame counts as late when playout has started and its sequence
/// lies more than two target depths behind the next expected one. Sequence
/// comparison follows the signed 32-bit distance rule: the frame is behind
/// exactly when the wrapped difference is under 2^31.
pub open spec fn jb_is_late<F>(m: JitterModel<F>, seq: u32) -> bool {
    &&& m.next > 0
    &&& 2 * m.target < u32_specs::wrapping_sub(m.next, seq) < 0x8000_0000
}

/// The buffer contents once the oldest entries have been evicted to make
/// room: anything at or past twice the target depth leaves, lowest first.
pub open spec fn evict_low<F>(s: Seq<(u32, F)>, target: int) -> Seq<(u32, F)> {
    if s.len() >= 2 * target {
        s.subrange(s.len() - (2 * target - 1), s.len() as int)
    } else {
        s
    }
}

/// A sorted insertion: an entry with the same key is replaced.
pub open spec fn insert_entry<F>(s: Seq<(u32, F)>, k: u32, v: F) -> Seq<(u32, F)>
    decreases s.len(),
{
    if s.len() == 0 {
        seq![(k, v)]
    } else if k < s[0].0 {
        seq![(k, v)] + s
    } else if k == s[0].0 {
        seq![(k, v)] + s.subrange(1, s.len() as int)
    } else {
        seq![s[0]] + insert_entry(s.subrange(1, s.len() as int), k, v)
    }
}

/// One adaptation step: grow the target depth when more than a twentieth of
/// the frames since the last step came late, shrink it when less than a
/// hundredth did, and reset both counters.
pub open spec fn jb_adapt<F>(m: JitterModel<F>) -> JitterModel<F> {
    if m.total == 0 {
        m
    } else {
        let target = if m.late * 20 > m.total && m.target < MAX_JITTER_BUFFER {
            m.target + 1
        } else if m.late * 100 < m.total && m.target > MIN_JITTER_BUFFER {
            m.target - 1
        } else {
            m.target
        };
        JitterModel { target, late: 0, total: 0, ..m }
    }
}

/// The buffer state after pushing one frame.
pub open spec fn jb_push<F>(m: JitterModel<F>, seq: u32, frame: F) -> JitterModel<F> {
    let counted = JitterModel { total: u32_specs::wrapping_add(m.total, 1), ..m };
    if jb_is_late(m, seq) {
        JitterModel { late: u32_specs::wrapping_add(m.late, 1), ..counted }
    } else {
        let inserted = JitterModel {
            frames: insert_entry(evict_low(counted.frames, counted.target), seq, frame),
            ..counted
        };
        if inserted.total % 100 == 0 {
            jb_adapt(inserted)
        } else {
            inserted
        }
    }
}

/// The entry a pop would deliver: the one due next if buffered, else the
/// oldest buffered one once the buffer has filled to half its target depth.
pub open spec fn jb_pop_entry<F>(m: JitterModel<F>) -> Option<(u32, F)> {
    if has_key(m.frames, m.next) {
        Some(m.frames[idx_of(m.frames, m.next)])
    } else if m.frames.len() >= m.target / 2 {
        Some(m.frames[0])
    } else {
        None
    }
}

/// The buffer state after a pop.
pub open spec fn jb_pop_state<F>(m: JitterModel<F>) -> JitterModel<F> {
    if has_key(m.frames, m.next) {
        JitterModel {
            frames: m.frames.remove(idx_of(m.frames, m.next)),
            next: u32_specs::wrapping_add(m.next, 1),
            ..m
        }
    } else if m.frames.len() >= m.target / 2 {
        JitterModel {
            frames: m.frames.remove(0),
            next: u32_specs::wrapping_add(m.frames[0].0, 1),
            ..m
        }
    } else {
        m
    }
}

/// The first occurrence of a present key is a real index, carries the key,
/// and nothing before it does.
proof fn lemma_idx_of_props<F>(s: Seq<(u32, F)>, k: u32)
    requires
        has_key(s, k),
    ensures
        0 <= idx_of(s, k) < s.len(),
        s[idx_of(s, k)].0 == k,
        forall|j: int| 0 <= j < idx_of(s, k) ==> (#[trigger] s[j]).0 != k,
    decreases s.len(),
{
    if s.len() == 0 {
    } else if s[0].0 == k {
    } else {
        let rest = s.subrange(1, s.len() as int);
        let i = choose|i: int| 0 <= i < s.len() && (#[trigger] s[i]).0 == k;
        assert(rest[i - 1].0 == k);
        lemma_idx_of_props(rest, k);
        assert(s[idx_of(s, k)] == rest[idx_of(rest, k)]);
        assert forall|j: int| 0 <= j < idx_of(s, k) implies (#[trigger] s[j]).0 != k by {
            if j > 0 {
                assert(rest[j - 1] == s[j]);
            }
        }
    }
}

/// Sorted insertion keeps the keys sorted, and every entry of the result is
/// either the inserted pair or one of the old entries.
proof fn lemma_insert_entry_sorted<F>(s: Seq<(u32, F)>, k: u32, v: F)
    requires
        keys_sorted(s),
    ensures
        keys_sorted(insert_entry(s, k, v)),
        forall|i: int|
            0 <= i < insert_entry(s, k, v).len() ==> (#[trigger] insert_entry(s, k, v)[i]) == (k,
            v) || s.contains(insert_entry(s, k, v)[i]),
    decreases s.len(),
{
    let r = insert_entry(s, k, v);
    if s.len() == 0 {
    } else if k < s[0].0 {
        assert forall|i: int| 0 <= i < r.len() implies (#[trigger] r[i]) == (k, v) || s.contains(
            r[i],
        ) by {
            if i > 0 {
                assert(r[i] == s[i - 1]);
            }
        }
    } else if k == s[0].0 {
        assert forall|i: int| 0 <= i < r.len() implies (#[trigger] r[i]) == (k, v) || s.contains(
            r[i],
        ) by {
            if i > 0 {
                assert(r[i] == s[i]);
            }
        }
    } else {
        let rest = s.subrange(1, s.len() as int);
        let rr = insert_entry(rest, k, v);
        lemma_insert_entry_sorted(rest, k, v);
        assert forall|i: int| 0 <= i < r.len() implies (#[trigger] r[i]) == (k, v) || s.contains(
            r[i],
        ) by {
            if i == 0 {
                assert(r[0] == s[0]);
            } else {
                assert(r[i] == rr[i - 1]);
                if rr[i - 1] != (k, v) {
                    let j = choose|j: int| 0 <= j < rest.len() && rest[j] == rr[i - 1];
                    assert(s[j + 1] == rr[i - 1]);
                }
            }
        }
        assert forall|a: int, b: int| 0 <= a < b < r.len() implies (#[trigger] r[a]).0 < (
        #[trigger] r[b]).0 by {
            if a == 0 {
                if rr[b - 1] == (k, v) {
                    assert(r[b].0 == k);
                } else {
                    let j = choose|j: int| 0 <= j < rest.len() && rest[j] == rr[b - 1];
                    assert(s[j + 1] == rr[b - 1]);
                }
            } else {
                assert(rr[a - 1].0 < rr[b - 1].0);
            }
        }
    }
}

/// When the key already sits at index `i`, sorted insertion is replacement.
proof fn lemma_insert_entry_replaces<F>(s: Seq<(u32, F)>, k: u32, v: F, i: int)
    requires
        keys_sorted(s),
        0 <= i < s.len(),
        s[i].0 == k,
    ensures
        insert_entry(s, k, v) =~= s.update(i, (k, v)),
    decreases i,
{
    if i == 0 {
    } else {
        let rest = s.subrange(1, s.len() as int);
        assert(s[0].0 < s[i].0);
        lemma_insert_entry_replaces(rest, k, v, i - 1);
    }
}

/// When no entry carries the key and `i` is its sorted position, sorted
/// insertion inserts there.
proof fn lemma_insert_entry_at<F>(s: Seq<(u32, F)>, k: u32, v: F, i: int)
    requires
        keys_sorted(s),
        0 <= i <= s.len(),
        forall|j: int| 0 <= j < i ==> (#[trigger] s[j]).0 < k,
        i < s.len() ==> s[i].0 > k,
    ensures
        insert_entry(s, k, v) =~= s.insert(i, (k, v)),
    decreases i,
{
    if i == 0 {
    } else {
        let rest = s.subrange(1, s.len() as int);
        lemma_insert_entry_at(rest, k, v, i - 1);
    }
}

/// Pushing keeps the buffer well formed; in particular the target depth
/// stays within its bounds for any push sequence.
pub proof fn lemma_push_preserves_wf<F>(m: JitterModel<F>, seq: u32, frame: F)
    requires
        jb_wf(m),
    ensures
        jb_wf(jb_push(m, seq, frame)),
{
    if !jb_is_late(m, seq) {
        let evicted = evict_low(m.frames, m.target);
        assert(keys_sorted(evicted));
        lemma_insert_entry_sorted(evicted, seq, frame);
    }
}

/// The target depth of a well-formed buffer lies between the minimum and the
/// maximum depth, and stays there across any push.
pub proof fn lemma_target_depth_bounded<F>(m: JitterModel<F>, seq: u32, frame: F)
    requires
        jb_wf(m),
    ensures
        MIN_JITTER_BUFFER <= m.target <= MAX_JITTER_BUFFER,
        MIN_JITTER_BUFFER <= jb_push(m, seq, frame).target <= MAX_JITTER_BUFFER,
{
    lemma_push_preserves_wf(m, seq, frame);
}

/// When the hundredth push since the last adaptation arrives in time and
/// more than a twentieth of the hundred came late, the adaptation step runs
/// right then: the target depth grows by exactly one and both counters
/// reset.
pub proof fn lemma_adapt_up<F>(m: JitterModel<F>, seq: u32, frame: F)
    requires
        jb_wf(m),
        m.total == 99,
        m.late * 20 > 100,
        m.target < MAX_JITTER_BUFFER,
        !jb_is_late(m, seq),
    ensures
        jb_push(m, seq, frame).target == m.target + 1,
        jb_push(m, seq, frame).late == 0,
        jb_push(m, seq, frame).total == 0,
{
}

/// Popping keeps the buffer well formed.
pub proof fn lemma_pop_preserves_wf<F>(m: JitterModel<F>)
    requires
        jb_wf(m),
    ensures
        jb_wf(jb_pop_state(m)),
{
    let m2 = jb_pop_state(m);
    if has_key(m.frames, m.next) {
        lemma_idx_of_props(m.frames, m.next);
        let i = idx_of(m.frames, m.next);
        assert(m.frames.remove(i) =~= m.frames.subrange(0, i) + m.frames.subrange(
            i + 1,
            m.frames.len() as int,
        ));
        assert(keys_sorted(m2.frames));
    } else if m.frames.len() >= m.target / 2 {
        assert(m.frames.remove(0) =~= m.frames.subrange(1, m.frames.len() as int));
        assert(keys_sorted(m2.frames));
    }
}

/// Every buffered sequence is at or past the next expected one. This holds
/// while no frame older than the playout point has been accepted, and pops
/// preserve it.
pub open spec fn jb_aligned<F>(m: JitterModel<F>) -> bool {
    forall|i: int| 0 <= i < m.frames.len() ==> (#[trigger] m.frames[i]).0 >= m.next
}

/// A push at or ahead of the playout point keeps the buffer aligned: with
/// pops, which preserve alignment too, every buffer that never accepted a
/// frame from behind the playout point stays aligned.
pub proof fn lemma_push_preserves_aligned<F>(m: JitterModel<F>, seq: u32, frame: F)
    requires
        jb_wf(m),
        jb_aligned(m),
        seq >= m.next,
    ensures
        jb_aligned(jb_push(m, seq, frame)),
{
    let m2 = jb_push(m, seq, frame);
    if !jb_is_late(m, seq) {
        let evicted = evict_low(m.frames, m.target);
        assert(keys_sorted(evicted));
        lemma_insert_entry_sorted(evicted, seq, frame);
        assert forall|i: int| 0 <= i < m2.frames.len() implies (#[trigger] m2.frames[i]).0
            >= m2.next by {
            if m2.frames[i] != (seq, frame) {
                let j = choose|j: int| 0 <= j < evicted.len() && evicted[j] == m2.frames[i];
                assert(evicted[j].0 >= m.next);
            }
        }
    }
}

/// Pops deliver frames in strictly increasing sequence order: on an aligned
/// well-formed buffer, two consecutive pops that both deliver a frame
/// deliver them with growing sequence numbers, the buffer stays aligned, and
/// each delivered sequence is at or past the expected one at its pop.
pub proof fn lemma_pop_order_increasing<F>(m: JitterModel<F>)
    requires
        jb_wf(m),
        jb_aligned(m),
        jb_pop_entry(m) is Some,
        jb_pop_entry(jb_pop_state(m)) is Some,
    ensures
        jb_pop_entry(m).unwrap().0 >= m.next,
        jb_aligned(jb_pop_state(m)),
        jb_pop_entry(m).unwrap().0 < jb_pop_entry(jb_pop_state(m)).unwrap().0,
{
    let k = jb_pop_entry(m).unwrap().0;
    let m2 = jb_pop_state(m);
    lemma_pop_preserves_wf(m);
    if has_key(m.frames, m.next) {
        let i = idx_of(m.frames, m.next);
        lemma_idx_of_props(m.frames, m.next);
        assert(m.frames.remove(i) =~= m.frames.subrange(0, i) + m.frames.subrange(
            i + 1,
            m.frames.len() as int,
        ));
        assert forall|j: int| 0 <= j < m2.frames.len() implies (#[trigger] m2.frames[j]).0 > k by {
            if j < i {
                assert(m2.frames[j] == m.frames[j]);
                assert(m.frames[j].0 != k);
                assert(m.frames[j].0 >= m.next);
            } else {
                assert(m2.frames[j] == m.frames[j + 1]);
            }
        }
        if k == u32::MAX {
            assert(forall|j: int|
                0 <= j < m2.frames.len() ==> (#[trigger] m2.frames[j]).0 > u32::MAX);
            assert(m2.frames.len() == 0);
            assert(!has_key(m2.frames, m2.next));
            assert(jb_pop_entry(m2) is None);
        }
        assert(m2.next == k + 1);
        assert(jb_aligned(m2));
    } else {
        assert(m.frames.len() >= m.target / 2);
        assert(m.frames.remove(0) =~= m.frames.subrange(1, m.frames.len() as int));
        assert(k == m.frames[0].0);
        assert forall|j: int| 0 <= j < m2.frames.len() implies (#[trigger] m2.frames[j]).0 > k by {
            assert(m2.frames[j] == m.frames[j + 1]);
        }
        if k == u32::MAX {
            assert(m2.frames.len() == 0);
            assert(jb_pop_entry(m2) is None);
        }
        assert(m2.next == k + 1);
        assert(jb_aligned(m2));
    }
    let k2 = jb_pop_entry(m2).unwrap().0;
    if has_key(m2.frames, m2.next) {
        lemma_idx_of_props(m2.frames, m2.next);
    }
}

impl<F> View for JitterBuffer<F> {
    type V = JitterModel<F>;

    closed spec fn view(&self) -> JitterModel<F> {
        JitterModel {
            frames: self.entries@,
            next: self.next_seq,
            target: self.target_size as int,
            late: self.late_packets,
            total: self.total_packets,
        }
    }
}

impl<F> JitterBuffer<F> {
    /// A fresh buffer with the given target depth, clamped into bounds.
    pub fn new(initial_size: usize) -> (r: JitterBuffer<F>)
        ensures
            jb_wf(r@),
            r@.frames =~= Seq::<(u32, F)>::empty(),
            r@.next == 0,
            r@.target == clamp_target(initial_size as int),
            r@.late == 0,
            r@.total == 0,
    {
        let clamped: usize = if initial_size < MIN_JITTER_BUFFER {
            MIN_JITTER_BUFFER
        } else if initial_size > MAX_JITTER_BUFFER {
            MAX_JITTER_BUFFER
        } else {
            initial_size
        };
        JitterBuffer {
            entries: Vec::new(),
            next_seq: 0,
            target_size: clamped,
            late_packets: 0,
            total_packets: 0,
        }
    }

    /// Number of buffered frames.
    pub fn len(&self) -> (r: usize)
        ensures
            r == self@.frames.len(),
    {
        self.entries.len()
    }

    /// Current target depth in frames.
    pub fn target_size(&self) -> (r: usize)
        ensures
            r == self@.target,
    {
        self.target_size
    }

    /// The next sequence number due for playout.
    pub fn next_expected(&self) -> (r: u32)
        ensures
            r == self@.next,
    {
        self.next_seq
    }

    /// Set the target depth, clamped into bounds; nothing else changes.
    pub fn set_target(&mut self, size: usize)
        ensures
            final(self)@ == (JitterModel { target: clamp_target(size as int), ..old(self)@ }),
            jb_wf(old(self)@) ==> jb_wf(final(self)@),
    {
        self.target_size = if size < MIN_JITTER_BUFFER {
            MIN_JITTER_BUFFER
        } else if size > MAX_JITTER_BUFFER {
            MAX_JITTER_BUFFER
        } else {
            size
        };
    }

    /// Buffer one decoded frame under its sequence number.
    pub fn push(&mut self, seq: u32, frame: F)
        requires
            jb_wf(old(self)@),
        ensures
            final(self)@ == jb_push(old(self)@, seq, frame),
            jb_wf(final(self)@),
    {
        proof {
            lemma_push_preserves_wf(old(self)@, seq, frame);
        }
        let ghost m0 = self@;
        self.total_packets = self.total_packets.wrapping_add(1);
        let twice: usize = 2 * self.target_size;
        let behind: u32 = self.next_seq.wrapping_sub(seq);
        if self.next_seq > 0 && (twice as u32) < behind && behind < 0x8000_0000 {
            self.late_packets = self.late_packets.wrapping_add(1);
            assert(self@ =~= jb_push(m0, seq, frame));
            return ;
        }
        let ghost fr0 = self.entries@;
        let ghost mut ndropped: int = 0;
        while self.entries.len() >= twice
            invariant
                0 <= ndropped <= fr0.len(),
                self.entries@ =~= fr0.subrange(ndropped, fr0.len() as int),
                fr0.len() >= twice ==> self.entries.len() >= twice - 1,
                fr0.len() < twice ==> ndropped == 0,
                twice == 2 * m0.target,
                2 <= m0.target <= 10,
                self.next_seq == m0.next,
                self.target_size == m0.target,
                self.late_packets == m0.late,
                self.total_packets == u32_specs::wrapping_add(m0.total, 1),
            decreases self.entries.len(),
        {
            self.entries.remove(0);
            proof {
                ndropped = ndropped + 1;
                assert(fr0.subrange(ndropped - 1, fr0.len() as int).remove(0) =~= fr0.subrange(
                    ndropped,
                    fr0.len() as int,
                ));
            }
        }
        proof {
            assert(self.entries@ =~= evict_low(fr0, m0.target));
        }
        let ghost fr1 = self.entries@;
        proof {
            assert(keys_sorted(fr1));
        }
        let mut i: usize = 0;
        while i < self.entries.len() && self.entries[i].0 < seq
            invariant
                0 <= i <= self.entries.len(),
                self.entries@ == fr1,
                forall|j: int| 0 <= j < i ==> (#[trigger] fr1[j]).0 < seq,
            decreases self.entries.len() - i,
        {
            i = i + 1;
        }
        if i < self.entries.len() && self.entries[i].0 == seq {
            self.entries.set(i, (seq, frame));
            proof {
                lemma_insert_entry_replaces(fr1, seq, frame, i as int);
            }
        } else {
            self.entries.insert(i, (seq, frame));
            proof {
                lemma_insert_entry_at(fr1, seq, frame, i as int);
            }
        }
        assert(self.entries@ =~= insert_entry(fr1, seq, frame));
        if self.total_packets % 100 == 0 {
            if self.total_packets != 0 {
                let late64: u64 = self.late_packets as u64;
                let total64: u64 = self.total_packets as u64;
                if late64 * 20 > total64 && self.target_size < MAX_JITTER_BUFFER {
                    self.target_size = self.target_size + 1;
                } else if late64 * 100 < total64 && self.target_size > MIN_JITTER_BUFFER {
                    self.target_size = self.target_size - 1;
                }
                self.late_packets = 0;
                self.total_packets = 0;
            }
        }
        assert(self@ =~= jb_push(m0, seq, frame));
    }

    /// Deliver the next frame for playout, if the buffer can supply one:
    /// the frame due next when buffered; otherwise, once the buffer holds at
    /// least half its target depth, the oldest buffered frame (skipping the
    /// gap); otherwise nothing.
    pub fn pop(&mut self) -> (r: Option<F>)
        requires
            jb_wf(old(self)@),
        ensures
            final(self)@ == jb_pop_state(old(self)@),
            jb_wf(final(self)@),
            r is Some <==> jb_pop_entry(old(self)@) is Some,
            r matches Some(f) ==> jb_pop_entry(old(self)@) matches Some(e) && f == e.1,
    {
        proof {
            lemma_pop_preserves_wf(old(self)@);
        }
        let ghost m0 = self@;
        let n = self.entries.len();
        let mut i: usize = 0;
        while i < n && self.entries[i].0 != self.next_seq
            invariant
                0 <= i <= n,
                n == self.entries.len(),
                self@ == m0,
                forall|j: int| 0 <= j < i ==> (#[trigger] m0.frames[j]).0 != m0.next,
            decreases n - i,
        {
            i = i + 1;
        }
        if i < n {
            proof {
                assert(has_key(m0.frames, m0.next));
                lemma_idx_of_props(m0.frames, m0.next);
                assert(idx_of(m0.frames, m0.next) == i as int);
            }
            let entry = self.entries.remove(i);
            self.next_seq = self.next_seq.wrapping_add(1);
            return Some(entry.1);
        }
        proof {
            assert(!has_key(m0.frames, m0.next));
        }
        if self.entries.len() >= self.target_size / 2 {
            assert(self.entries.len() >= 1);
            let entry = self.entries.remove(0);
            self.next_seq = entry.0.wrapping_add(1);
            return Some(entry.1);
        }
        None
    }
}

} // verus!
