//! The shared playback ring.
//!
//! Decoded frames from every peer are appended at the back; the output
//! callback drains samples from the front. The ring is capped: when an
//! append would grow it past 200 ms of audio (9600 samples at 48 kHz
//! stereo), the oldest samples are dropped first.

use vstd::prelude::*;

verus! {

/// Largest number of samples the ring holds (200 ms at 48 kHz stereo).
pub const PLAYBACK_CAP: usize = 9600;

/// A bounded first-in-first-out sample buffer.
pub struct PlaybackRing<S> {
    /// Buffered samples, oldest first.
    samples: Vec<S>,
}

/// What remains of `s` after capping at the playback limit: the newest
/// `PLAYBACK_CAP` samples.
pub open spec fn capped<S>(s: Seq<S>) -> Seq<S> {
    if s.len() > PLAYBACK_CAP {
        s.subrange(s.len() - PLAYBACK_CAP, s.len() as int)
    } else {
        s
    }
}

impl<S> View for PlaybackRing<S> {
    type V = Seq<S>;

    closed spec fn view(&self) -> Seq<S> {
        self.samples@
    }
}

impl<S> PlaybackRing<S> {
    /// A fresh, empty ring.
    pub fn new() -> (r: PlaybackRing<S>)
        ensures
            r@ == Seq::<S>::empty(),
    {
        PlaybackRing { samples: Vec::new() }
    }

    /// Number of buffered samples.
    pub fn len(&self) -> (r: usize)
        ensures
            r == self@.len(),
    {
        self.samples.len()
    }

    /// Append decoded samples at the back, dropping the oldest ones if the
    /// ring would grow past its cap. The ring never exceeds the cap.
    pub fn push_samples(&mut self, frame: Vec<S>)
        requires
            old(self)@.len() <= PLAYBACK_CAP,
        ensures
            final(self)@ == capped(old(self)@ + frame@),
            final(self)@.len() <= PLAYBACK_CAP,
    {
        let ghost all = self.samples@ + frame@;
        let mut rest = frame;
        let ghost mut taken: int = 0;
        let ghost n0 = self.samples@.len() as int;
        let ghost flen = rest@.len() as int;
        while rest.len() > 0
            invariant
                0 <= taken <= flen,
                0 <= n0,
                all.len() == n0 + flen,
                rest@ == all.subrange(n0 + taken, all.len() as int),
                self.samples@ == all.subrange(n0 + taken - self.samples@.len(), n0 + taken),
                self.samples@.len() == (if n0 + taken <= PLAYBACK_CAP {
                    n0 + taken
                } else {
                    PLAYBACK_CAP as int
                }),
            decreases rest.len(),
        {
            let s = rest.remove(0);
            proof {
                assert(s == all[n0 + taken]);
            }
            if self.samples.len() == PLAYBACK_CAP {
                self.samples.remove(0);
            }
            self.samples.push(s);
            proof {
                taken = taken + 1;
                assert(rest@ == all.subrange(n0 + taken, all.len() as int));
                assert(self.samples@ == all.subrange(
                    n0 + taken - self.samples@.len(),
                    n0 + taken,
                ));
            }
        }
        proof {
            assert(self@ == capped(all));
        }
    }

    /// Drain up to `want` samples from the front, oldest first; the output
    /// callback fills what is missing with silence.
    pub fn take(&mut self, want: usize) -> (r: Vec<S>)
        ensures
            r@ == old(self)@.subrange(0, if want <= old(self)@.len() {
                want as int
            } else {
                old(self)@.len() as int
            }),
            final(self)@ == old(self)@.subrange(r@.len() as int, old(self)@.len() as int),
    {
        let ghost before = self.samples@;
        let mut out: Vec<S> = Vec::new();
        let mut i: usize = 0;
        let count = if want <= self.samples.len() {
            want
        } else {
            self.samples.len()
        };
        while i < count
            invariant
                0 <= i <= count,
                count <= before.len(),
                out@ == before.subrange(0, i as int),
                self.samples@ == before.subrange(i as int, before.len() as int),
            decreases count - i,
        {
            let s = self.samples.remove(0);
            out.push(s);
            i = i + 1;
            proof {
                assert(out@ == before.subrange(0, i as int));
                assert(self.samples@ == before.subrange(i as int, before.len() as int));
            }
        }
        out
    }
}

} // verus!
