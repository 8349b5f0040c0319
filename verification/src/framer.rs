//! Repacking captured PCM into exact 10 ms frames.
//!
//! The input device hands over sample chunks of arbitrary length; the codec
//! wants exactly one frame at a time: 480 interleaved samples for mono, 960
//! for stereo. The framer buffers the spill-over and emits one frame for
//! every full frame's worth of samples, so the number of frames it has
//! emitted always equals the number of samples it has consumed divided by
//! the frame size, rounded down.

use vstd::prelude::*;
use vstd::arithmetic::div_mod::lemma_fundamental_div_mod_converse;

verus! {

/// Samples per 10 ms frame for mono input.
pub const MONO_FRAME_SIZE: usize = 480;

/// Samples per 10 ms frame for stereo input (interleaved).
pub const STEREO_FRAME_SIZE: usize = 960;

/// Accumulates PCM samples and cuts them into exact frames.
pub struct Framer<S> {
    /// Samples carried over, fewer than one frame.
    pending: Vec<S>,
    /// Samples per emitted frame.
    frame_size: usize,
    /// Samples consumed so far.
    samples_in: u64,
    /// Frames emitted so far.
    frames_out: u64,
}

impl<S> Framer<S> {
    /// Samples carried over, waiting for a full frame.
    pub closed spec fn pending(self) -> Seq<S> {
        self.pending@
    }

    /// Samples per emitted frame.
    pub closed spec fn frame_size(self) -> int {
        self.frame_size as int
    }

    /// Samples consumed over the framer's lifetime.
    pub closed spec fn samples_in(self) -> int {
        self.samples_in as int
    }

    /// Frames emitted over the framer's lifetime.
    pub closed spec fn frames_out(self) -> int {
        self.frames_out as int
    }

    /// A well-formed framer: a mono or stereo frame size, less than one
    /// frame pending, and every consumed sample either emitted in a frame
    /// or still pending.
    pub open spec fn wf(self) -> bool {
        &&& (self.frame_size() == MONO_FRAME_SIZE || self.frame_size() == STEREO_FRAME_SIZE)
        &&& self.pending().len() < self.frame_size()
        &&& self.frames_out() * self.frame_size() + self.pending().len() == self.samples_in()
    }

    /// A fresh framer for the given channel count.
    pub fn new(channels: u8) -> (r: Framer<S>)
        requires
            channels == 1 || channels == 2,
        ensures
            r.wf(),
            r.pending() == Seq::<S>::empty(),
            r.frame_size() == 480 * channels,
            r.samples_in() == 0,
            r.frames_out() == 0,
    {
        Framer {
            pending: Vec::new(),
            frame_size: if channels == 1 {
                MONO_FRAME_SIZE
            } else {
                STEREO_FRAME_SIZE
            },
            samples_in: 0,
            frames_out: 0,
        }
    }

    /// Frames emitted so far.
    pub fn frames_emitted(&self) -> (r: u64)
        ensures
            r == self.frames_out(),
    {
        self.frames_out
    }

    /// Samples consumed so far.
    pub fn samples_consumed(&self) -> (r: u64)
        ensures
            r == self.samples_in(),
    {
        self.samples_in
    }

    /// Feed a chunk of captured samples and take the full frames it
    /// completes: consecutive frame-sized slices of the pending samples
    /// followed by the chunk, with the remainder left pending.
    pub fn push(&mut self, input: Vec<S>) -> (frames: Vec<Vec<S>>)
        requires
            old(self).wf(),
            old(self).samples_in() + input@.len() <= u64::MAX,
        ensures
            final(self).wf(),
            final(self).frame_size() == old(self).frame_size(),
            final(self).samples_in() == old(self).samples_in() + input@.len(),
            final(self).frames_out() == old(self).frames_out() + frames@.len(),
            ({
                let all = old(self).pending() + input@;
                let fs = old(self).frame_size();
                &&& frames@.len() == all.len() as int / fs
                &&& (forall|j: int|
                    0 <= j < frames@.len() ==> (#[trigger] frames@[j])@ == all.subrange(
                        j * fs,
                        (j + 1) * fs,
                    ))
                &&& final(self).pending() == all.subrange(
                    frames@.len() * fs,
                    all.len() as int,
                )
            }),
    {
        let ghost all = self.pending@ + input@;
        let ghost fs = self.frame_size as int;
        let ghost p0 = self.pending@.len() as int;
        let ghost s0 = self.samples_in as int;
        let ghost f0 = self.frames_out as int;
        let input_len = input.len();
        let mut frames: Vec<Vec<S>> = Vec::new();
        let mut rest = input;
        let ghost mut taken: int = 0;
        let ghost mut done: int = 0;
        proof {
            assert(frames@.len() * fs == 0) by (nonlinear_arith)
                requires
                    frames@.len() == 0,
            ;
        }
        while rest.len() > 0
            invariant
                self.frame_size == fs,
                fs == 480 || fs == 960,
                self.samples_in == s0,
                self.frames_out == f0,
                0 <= taken <= input_len,
                0 <= p0,
                0 <= done,
                all.len() == p0 + input_len,
                rest@ == all.subrange(p0 + taken, all.len() as int),
                rest@.len() == input_len - taken,
                done == frames@.len() * fs,
                done + self.pending@.len() == p0 + taken,
                self.pending@.len() < fs,
                self.pending@ == all.subrange(done, done + self.pending@.len()),
                forall|j: int|
                    0 <= j < frames@.len() ==> (#[trigger] frames@[j])@ == all.subrange(
                        j * fs,
                        (j + 1) * fs,
                    ),
            decreases rest.len(),
        {
            let s = rest.remove(0);
            self.pending.push(s);
            proof {
                taken = taken + 1;
                assert(rest@ == all.subrange(p0 + taken, all.len() as int));
                assert(self.pending@ == all.subrange(done, done + self.pending@.len()));
            }
            if self.pending.len() == self.frame_size {
                let mut full: Vec<S> = Vec::new();
                core::mem::swap(&mut self.pending, &mut full);
                frames.push(full);
                proof {
                    let n = frames@.len() - 1;
                    assert(n * fs == done) by (nonlinear_arith)
                        requires
                            done == n * fs,
                    ;
                    assert((n + 1) * fs == n * fs + fs) by (nonlinear_arith);
                    done = done + fs;
                    assert(frames@[n]@ == all.subrange(n * fs, (n + 1) * fs));
                }
            }
        }
        proof {
            assert(taken == input_len);
            assert(all.len() == done + self.pending@.len());
        }
        self.samples_in = self.samples_in + (input_len as u64);
        let emitted = frames.len();
        proof {
            assert(frames@.len() * fs + self.pending@.len() == p0 + input_len);
            assert(f0 * fs + p0 == s0);
            assert((f0 + frames@.len()) * fs == f0 * fs + frames@.len() * fs)
                by (nonlinear_arith);
            assert((f0 + frames@.len()) * fs + self.pending@.len() == s0 + input_len);
            assert(f0 + frames@.len() <= u64::MAX) by {
                assert(f0 + frames@.len() <= (f0 + frames@.len()) * fs) by (nonlinear_arith)
                    requires
                        fs >= 1,
                        f0 + frames@.len() >= 0,
                ;
            }
        }
        self.frames_out = self.frames_out + (emitted as u64);
        proof {
            lemma_fundamental_div_mod_converse(
                all.len() as int,
                fs,
                frames@.len() as int,
                self.pending@.len() as int,
            );
        }
        frames
    }
}

/// The number of frames a framer has emitted equals the number of samples
/// it has consumed divided by the frame size, rounded down.
pub proof fn lemma_framing_count<S>(f: Framer<S>)
    requires
        f.wf(),
    ensures
        f.frames_out() == f.samples_in() / f.frame_size(),
{
    lemma_fundamental_div_mod_converse(
        f.samples_in(),
        f.frame_size(),
        f.frames_out(),
        f.pending().len() as int,
    );
}

} // verus!
