//! Delay bookkeeping.
//!
//! A streaming-converted stage reports a non-negative output delay: its first
//! valid output lags its first input by `delay` frames, and the first `delay`
//! incremental outputs are warm-up values. `DelayLine` is the incremental
//! form of that discipline for spectral frames: stepping it with frame number
//! `n` returns the frame fed at step `n - delay`, or an all-zero frame while
//! `n < delay`. `offline_delayed` is the equivalent whole-sequence
//! computation; the `ensures` of [`DelayLine::step`] states that incremental
//! and offline execution agree at every output index, so they agree in
//! particular at index `delay` after `delay` arbitrary frames and one known
//! frame.

use vstd::prelude::*;

verus! {

use crate::num::Complex;
use crate::ring::{zero_frame, zero_frame_vec};

/// The whole-sequence (offline) form of a delay-`d` stage over frames of
/// `bins` bins: output `i` is input `i - d`, or all-zero during warm-up.
pub open spec fn offline_delayed(inputs: Seq<Seq<Complex>>, d: int, bins: int) -> Seq<Seq<Complex>> {
    Seq::new(inputs.len(), |i: int| if i < d { zero_frame(bins) } else { inputs[i - d] })
}

/// Incremental delay-by-`d` over complex frames.
pub struct DelayLine {
    slots: Vec<Vec<Complex>>,
    head: usize,
    bins: usize,
    hist: Ghost<Seq<Seq<Complex>>>,
}

impl DelayLine {
    /// The slot read (and then overwritten) `k` steps from now.
    spec fn slot(self, k: int) -> int {
        if self.head + k < self.slots.len() {
            self.head + k
        } else {
            self.head + k - self.slots.len()
        }
    }

    /// Every frame ever fed, in order.
    pub closed spec fn hist(self) -> Seq<Seq<Complex>> {
        self.hist@
    }

    /// The configured delay.
    pub closed spec fn delay(self) -> int {
        self.slots.len() as int
    }

    /// The configured frame width.
    pub closed spec fn nb_bins(self) -> int {
        self.bins as int
    }

    /// Internal consistency: the slots hold exactly the frames still owed,
    /// in the order they will be emitted.
    pub closed spec fn wf(self) -> bool {
        let d = self.slots.len() as int;
        let n = self.hist@.len() as int;
        &&& (self.head < self.slots.len() || (self.slots.len() == 0 && self.head == 0))
        &&& forall|k: int|
            0 <= k < d ==> (#[trigger] self.slots@[self.slot(k)])@ == (if n + k < d {
                zero_frame(self.bins as int)
            } else {
                self.hist@[n + k - d]
            })
    }

    /// A fresh line that owes `delay` all-zero frames.
    pub fn new(delay: usize, bins: usize) -> (r: DelayLine)
        ensures
            r.wf(),
            r.delay() == delay,
            r.nb_bins() == bins,
            r.hist() == Seq::<Seq<Complex>>::empty(),
    {
        let mut slots: Vec<Vec<Complex>> = Vec::new();
        let mut i: usize = 0;
        while i < delay
            invariant
                i <= delay,
                slots@.len() == i,
                forall|j: int| 0 <= j < i ==> (#[trigger] slots@[j])@ == zero_frame(bins as int),
            decreases delay - i,
        {
            slots.push(zero_frame_vec(bins));
            i = i + 1;
        }
        DelayLine { slots, head: 0, bins, hist: Ghost(Seq::empty()) }
    }

    /// Feed one frame; the result is what the offline computation yields at
    /// this output index: all-zero during warm-up, afterwards the frame fed
    /// `delay` steps ago.
    pub fn step(&mut self, frame: Vec<Complex>) -> (out: Vec<Complex>)
        requires
            old(self).wf(),
            frame@.len() == old(self).nb_bins(),
        ensures
            final(self).wf(),
            final(self).delay() == old(self).delay(),
            final(self).nb_bins() == old(self).nb_bins(),
            final(self).hist() == old(self).hist().push(frame@),
            out@ == offline_delayed(final(self).hist(), old(self).delay(), old(self).nb_bins())[
                old(self).hist().len() as int],
    {
        let ghost prev = *self;
        let d = self.slots.len();
        proof {
            self.hist@ = self.hist@.push(frame@);
        }
        if d == 0 {
            return frame;
        }
        let out = self.slots[self.head].clone();
        self.slots[self.head] = frame;
        self.head = if self.head + 1 < d {
            self.head + 1
        } else {
            0
        };
        proof {
            assert(out@ =~= prev.slots@[prev.head as int]@);
            assert(prev.slot(0) == prev.head as int);
            assert forall|k: int| 0 <= k < d implies
                (#[trigger] self.slots@[self.slot(k)])@ == (if self.hist@.len() + k < d {
                    zero_frame(self.bins as int)
                } else {
                    self.hist@[self.hist@.len() + k - d]
                }) by {
                if k < d - 1 {
                    assert(self.slot(k) == prev.slot(k + 1));
                    assert(self.slots@[self.slot(k)] == prev.slots@[prev.slot(k + 1)]);
                } else {
                    assert(self.slot(k) == prev.head as int);
                }
            }
        }
        out
    }
}

/// Delay-bookkeeping law: a stage with discovered delay `d`, fed `d` frames
/// of arbitrary input and then one known frame, yields at output index `d`
/// exactly what the whole-sequence computation on those `d + 1` frames gives
/// as its last output.
pub proof fn lemma_incremental_matches_offline(inputs: Seq<Seq<Complex>>, d: int, bins: int)
    requires
        inputs.len() == d + 1,
        d >= 0,
    ensures
        offline_delayed(inputs, d, bins)[d] == offline_delayed(inputs, d, bins).last(),
        offline_delayed(inputs, d, bins)[d] == inputs[0],
{
}

} // verus!
