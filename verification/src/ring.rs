//! The spectral history ring.
//!
//! A `SpectralBuffer` holds exactly `df_order` low-band complex frames: the
//! frame pushed most recently and the `df_order - 1` frames before it, each
//! restricted to the low `nb_df` frequency bins. Pushing a frame evicts the
//! oldest stored frame. The buffer starts out holding all-zero frames, which
//! is the documented warm-up output of the first `df_order - 1` steps.

use vstd::prelude::*;

verus! {

use crate::num::{Complex, ORDER_LIMIT, SAMPLE_LIMIT, frame_in};

/// An all-zero frame of `n` bins.
pub open spec fn zero_frame(n: int) -> Seq<Complex> {
    Seq::new(n as nat, |i: int| Complex::spec_zero())
}

/// Build an all-zero frame.
pub fn zero_frame_vec(n: usize) -> (r: Vec<Complex>)
    ensures
        r@ == zero_frame(n as int),
        r@.len() == n,
{
    let mut r: Vec<Complex> = Vec::new();
    let mut i: usize = 0;
    while i < n
        invariant
            i <= n,
            r@.len() == i,
            forall|j: int| 0 <= j < i ==> r@[j] == Complex::spec_zero(),
        decreases n - i,
    {
        r.push(Complex::zero());
        i = i + 1;
    }
    proof {
        assert(r@ =~= zero_frame(n as int));
    }
    r
}

/// Fixed-depth circular history of low-band spectral frames.
#[derive(Debug)]
pub struct SpectralBuffer {
    frames: Vec<Vec<Complex>>,
    head: usize,
    bins: usize,
}

impl SpectralBuffer {
    /// The slot that holds the frame pushed `k` steps ago.
    spec fn slot(self, k: int) -> int {
        if self.head + k < self.frames.len() {
            self.head + k
        } else {
            self.head + k - self.frames.len()
        }
    }

    /// Internal consistency: a full ring of equal-length, bounded frames.
    pub closed spec fn wf(self) -> bool {
        &&& 1 <= self.frames.len() <= ORDER_LIMIT
        &&& self.head < self.frames.len()
        &&& forall|i: int|
            0 <= i < self.frames.len() ==> (#[trigger] self.frames@[i])@.len() == self.bins
        &&& forall|i: int|
            0 <= i < self.frames.len() ==> frame_in((#[trigger] self.frames@[i])@, SAMPLE_LIMIT as int)
    }

    /// The stored frames, ordered by lag: index `k` is the frame pushed `k`
    /// steps ago (index 0 the newest, index `df_order - 1` the oldest).
    pub closed spec fn lags(self) -> Seq<Seq<Complex>> {
        Seq::new(self.frames.len() as nat, |k: int| self.frames@[self.slot(k)]@)
    }

    /// The configured history depth.
    pub open spec fn order(self) -> int {
        self.lags().len() as int
    }

    /// The configured number of low-band bins per frame.
    pub closed spec fn nb_df(self) -> int {
        self.bins as int
    }

    /// A fresh ring of `df_order` all-zero frames of `nb_df` bins.
    pub fn new(df_order: usize, nb_df: usize) -> (r: SpectralBuffer)
        requires
            1 <= df_order <= ORDER_LIMIT,
        ensures
            r.wf(),
            r.order() == df_order,
            r.nb_df() == nb_df,
            forall|k: int| 0 <= k < df_order ==> r.lags()[k] == zero_frame(nb_df as int),
    {
        let mut frames: Vec<Vec<Complex>> = Vec::new();
        let mut i: usize = 0;
        while i < df_order
            invariant
                i <= df_order,
                frames@.len() == i,
                forall|j: int| 0 <= j < i ==> (#[trigger] frames@[j])@ == zero_frame(nb_df as int),
            decreases df_order - i,
        {
            frames.push(zero_frame_vec(nb_df));
            i = i + 1;
        }
        let r = SpectralBuffer { frames, head: 0, bins: nb_df };
        proof {
            assert(forall|j: int| 0 <= j < df_order ==> r.slot(j) == j);
        }
        r
    }

    /// Push the newest frame, evicting the frame pushed `df_order` steps ago.
    /// Afterwards lag 0 is `frame` and lag `k` is the previous lag `k - 1`;
    /// the previous oldest frame (lag `df_order - 1`) is gone.
    pub fn push(&mut self, frame: Vec<Complex>)
        requires
            old(self).wf(),
            frame@.len() == old(self).nb_df(),
            frame_in(frame@, SAMPLE_LIMIT as int),
        ensures
            final(self).wf(),
            final(self).order() == old(self).order(),
            final(self).nb_df() == old(self).nb_df(),
            final(self).lags() == seq![frame@] + old(self).lags().drop_last(),
            final(self).lags()[0] == frame@,
            forall|k: int| 1 <= k < old(self).order()
                ==> final(self).lags()[k] == old(self).lags()[k - 1],
    {
        let order = self.frames.len();
        let ghost prev = *self;
        let new_head = if self.head == 0 {
            order - 1
        } else {
            self.head - 1
        };
        self.frames[new_head] = frame;
        self.head = new_head;
        proof {
            assert(self.lags()[0] == frame@);
            assert forall|k: int| 1 <= k < prev.frames.len() implies
                self.lags()[k] == prev.lags()[k - 1] by {
                assert(self.slot(k) != new_head);
                assert(self.frames@[self.slot(k)] == prev.frames@[prev.slot(k - 1)]);
            }
            assert(self.lags() =~= seq![frame@] + prev.lags().drop_last());
        }
    }

    /// The history depth, at run time.
    pub fn depth(&self) -> (r: usize)
        requires
            self.wf(),
        ensures
            r == self.order(),
            1 <= r <= ORDER_LIMIT,
    {
        self.frames.len()
    }

    /// The per-frame bin count, at run time.
    pub fn bins(&self) -> (r: usize)
        ensures
            r == self.nb_df(),
    {
        self.bins
    }

    /// Read the frame pushed `k` steps ago.
    pub fn lag_frame(&self, k: usize) -> (r: &Vec<Complex>)
        requires
            self.wf(),
            k < self.order(),
        ensures
            r@ == self.lags()[k as int],
            r@.len() == self.nb_df(),
            frame_in(r@, SAMPLE_LIMIT as int),
    {
        let order = self.frames.len();
        let idx = if self.head + k < order {
            self.head + k
        } else {
            self.head + k - order
        };
        &self.frames[idx]
    }
}

/// The stored frames after pushing every frame of `inputs`, in order, onto a
/// ring that held `init`.
pub open spec fn lags_after(init: Seq<Seq<Complex>>, inputs: Seq<Seq<Complex>>) -> Seq<Seq<Complex>>
    decreases inputs.len(),
{
    if inputs.len() == 0 {
        init
    } else {
        seq![inputs.last()] + lags_after(init, inputs.drop_last()).drop_last()
    }
}

/// Pushing never changes how many frames the ring holds.
pub proof fn lemma_lags_after_len(init: Seq<Seq<Complex>>, inputs: Seq<Seq<Complex>>)
    requires
        init.len() >= 1,
    ensures
        lags_after(init, inputs).len() == init.len(),
    decreases inputs.len(),
{
    if inputs.len() > 0 {
        lemma_lags_after_len(init, inputs.drop_last());
    }
}

/// Ring discipline: after pushing `inputs`, lag `k` holds exactly the input
/// pushed `k` steps before the last one.
pub proof fn lemma_ring_holds_last_pushes(
    init: Seq<Seq<Complex>>,
    inputs: Seq<Seq<Complex>>,
    k: int,
)
    requires
        init.len() >= 1,
        0 <= k < init.len(),
        k < inputs.len(),
    ensures
        lags_after(init, inputs)[k] == inputs[inputs.len() - 1 - k],
    decreases inputs.len(),
{
    lemma_lags_after_len(init, inputs.drop_last());
    if k > 0 {
        lemma_ring_holds_last_pushes(init, inputs.drop_last(), k - 1);
    }
}

/// Eviction law: the push of input number `n` (counting from 0) evicts
/// exactly the input pushed at step `n - df_order`, where `df_order` is the
/// depth of the ring.
pub proof fn lemma_ring_evicts(init: Seq<Seq<Complex>>, inputs: Seq<Seq<Complex>>, n: int)
    requires
        init.len() >= 1,
        init.len() <= n < inputs.len(),
    ensures
        lags_after(init, inputs.take(n)).last() == inputs[n - init.len()],
{
    let order = init.len() as int;
    lemma_lags_after_len(init, inputs.take(n));
    lemma_ring_holds_last_pushes(init, inputs.take(n), order - 1);
    assert(inputs.take(n)[n - order] == inputs[n - order]);
}

} // verus!
