//! The window of recent output samples that the waveform display reads: a ring buffer.
use vstd::prelude::*;
use vstd::arithmetic::div_mod::{lemma_small_mod, lemma_add_mod_noop_right};

verus! {

/// A fixed-size ring of the latest samples; `write_ptr` is the slot that the next sample
/// overwrites, which holds the oldest sample.
pub struct VisualizerBuffer<S> {
    pub samples: Vec<S>,
    pub write_ptr: usize,
}

/// The samples from oldest to newest: starting at the write position and wrapping around.
pub open spec fn chronological<S>(samples: Seq<S>, write_ptr: int) -> Seq<S> {
    Seq::new(samples.len(), |i: int| samples[(write_ptr + i) % (samples.len() as int)])
}

impl<S: Copy> VisualizerBuffer<S> {
    /// The write position lies inside a non-empty buffer (or is 0 for an empty one).
    pub open spec fn wf(&self) -> bool {
        self.samples@.len() == 0 && self.write_ptr == 0 || self.write_ptr < self.samples@.len()
    }

    /// A buffer of `size` slots, all holding `silence`.
    pub fn new(size: usize, silence: S) -> (b: Self)
        ensures
            b.wf(),
            b.samples@ == Seq::new(size as nat, |i: int| silence),
            b.write_ptr == 0,
    {
        let mut samples: Vec<S> = Vec::new();
        let mut i: usize = 0;
        while i < size
            invariant
                i <= size,
                samples@ == Seq::new(i as nat, |k: int| silence),
            decreases size - i,
        {
            samples.push(silence);
            i += 1;
            assert(samples@ =~= Seq::new(i as nat, |k: int| silence));
        }
        VisualizerBuffer { samples, write_ptr: 0 }
    }

    /// Records a sample over the oldest one; an empty buffer ignores it.
    pub fn push(&mut self, sample: S)
        requires
            old(self).wf(),
        ensures
            final(self).wf(),
            old(self).samples@.len() == 0 ==> *final(self) == *old(self),
            old(self).samples@.len() > 0 ==> {
                &&& final(self).samples@ == old(self).samples@.update(old(self).write_ptr as int, sample)
                &&& final(self).write_ptr == (old(self).write_ptr + 1) % (old(self).samples@.len() as int)
                &&& (final(self).samples@, final(self).write_ptr as int) == pushed(
                    old(self).samples@,
                    old(self).write_ptr as int,
                    seq![sample],
                )
            },
    {
        if self.samples.len() == 0 {
            return;
        }
        let p = self.write_ptr;
        proof {
            assert(seq![sample].drop_last() =~= Seq::<S>::empty());
            assert(pushed(self.samples@, p as int, Seq::<S>::empty()) == (self.samples@, p as int));
        }
        self.samples.set(p, sample);
        self.write_ptr = (p + 1) % self.samples.len();
    }

    /// The samples in the order they were recorded, oldest first.
    pub fn get_samples(&self) -> (out: Vec<S>)
        requires
            self.wf(),
        ensures
            out@ == chronological(self.samples@, self.write_ptr as int),
    {
        let len = self.samples.len();
        let mut out: Vec<S> = Vec::new();
        let mut i: usize = 0;
        while i < len
            invariant
                len == self.samples@.len(),
                self.wf(),
                i <= len,
                out@ == chronological(self.samples@, self.write_ptr as int).take(i as int),
            decreases len - i,
        {
            proof {
                lemma_mod_below_twice(self.write_ptr + i, len as int);
            }
            let idx = if i < len - self.write_ptr {
                self.write_ptr + i
            } else {
                i - (len - self.write_ptr)
            };
            out.push(self.samples[idx]);
            i += 1;
            assert(out@ =~= chronological(self.samples@, self.write_ptr as int).take(i as int));
        }
        assert(chronological(self.samples@, self.write_ptr as int).take(len as int) =~= chronological(
            self.samples@,
            self.write_ptr as int,
        ));
        out
    }
}

proof fn lemma_mod_below_twice(x: int, n: int)
    requires
        0 < n,
        0 <= x < 2 * n,
    ensures
        x % n == if x < n {
            x
        } else {
            x - n
        },
{
    if x < n {
        lemma_small_mod(x as nat, n as nat);
    } else {
        lemma_small_mod((x - n) as nat, n as nat);
        assert(x % n == (x - n) % n) by (nonlinear_arith)
            requires
                n <= x < 2 * n,
                0 < n,
        ;
    }
}

/// The buffer is a sliding window over the sample stream: recording a sample drops the
/// oldest one and appends the new one as the newest.
pub proof fn lemma_push_slides_window<S>(samples: Seq<S>, write_ptr: int, sample: S)
    requires
        0 <= write_ptr < samples.len(),
    ensures
        chronological(samples.update(write_ptr, sample), (write_ptr + 1) % (samples.len() as int))
            == chronological(samples, write_ptr).drop_first().push(sample),
{
    let n = samples.len() as int;
    let p = write_ptr;
    let lhs = chronological(samples.update(p, sample), (p + 1) % n);
    let rhs = chronological(samples, p).drop_first().push(sample);
    assert forall|i: int| 0 <= i < n implies lhs[i] == rhs[i] by {
        lemma_add_mod_noop_right(i, p + 1, n);
        assert((p + 1) % n + i == i + (p + 1) % n);
        lemma_mod_below_twice(p + 1 + i, n);
        if i < n - 1 {
            lemma_mod_below_twice(p + (i + 1), n);
        }
    }
    assert(lhs =~= rhs);
}

/// The samples and write position after recording `xs` in order from `samples` and
/// `write_ptr`, one sample at a time as `push` does.
pub open spec fn pushed<S>(samples: Seq<S>, write_ptr: int, xs: Seq<S>) -> (Seq<S>, int)
    decreases xs.len(),
{
    if xs.len() == 0 {
        (samples, write_ptr)
    } else {
        let (s, p) = pushed(samples, write_ptr, xs.drop_last());
        (s.update(p, xs.last()), (p + 1) % (s.len() as int))
    }
}

/// The buffer keeps the latest samples: after recording `xs`, its samples from oldest to
/// newest are the last of the earlier window followed by `xs`, as many as the buffer holds;
/// once at least that many samples were recorded, they are the last ones of `xs`.
pub proof fn lemma_pushes_keep_latest<S>(samples: Seq<S>, write_ptr: int, xs: Seq<S>)
    requires
        0 <= write_ptr < samples.len(),
    ensures
        ({
            let (s, p) = pushed(samples, write_ptr, xs);
            &&& s.len() == samples.len()
            &&& 0 <= p < s.len()
            &&& chronological(s, p) == (chronological(samples, write_ptr) + xs).skip(xs.len() as int)
            &&& xs.len() >= samples.len() ==> chronological(s, p) == xs.skip(xs.len() - samples.len())
        }),
    decreases xs.len(),
{
    let n = samples.len() as int;
    let m = xs.len() as int;
    let w = chronological(samples, write_ptr);
    let (s, p) = pushed(samples, write_ptr, xs);
    if m > 0 {
        let ys = xs.drop_last();
        let x = xs.last();
        lemma_pushes_keep_latest(samples, write_ptr, ys);
        let (s1, p1) = pushed(samples, write_ptr, ys);
        lemma_push_slides_window(s1, p1, x);
        assert(s == s1.update(p1, x) && p == (p1 + 1) % n);
        let prev = (w + ys).skip(m - 1);
        assert(chronological(s, p) == prev.drop_first().push(x));
        assert(prev.drop_first().push(x) =~= (w + xs).skip(m)) by {
            assert forall|i: int| 0 <= i < n implies #[trigger] prev.drop_first().push(x)[i] == (w + xs).skip(m)[i] by {
                if i < n - 1 {
                    assert(prev.drop_first()[i] == prev[i + 1]);
                    assert((w + ys)[m + i] == (w + xs)[m + i]);
                } else {
                    assert((w + xs)[n + m - 1] == xs[m - 1]);
                }
            }
        }
        assert(p1 + 1 < 2 * n);
    } else {
        assert((w + xs).skip(0) =~= w);
    }
    if m >= n {
        assert((w + xs).skip(m) =~= xs.skip(m - n));
    }
}

/// Recording one more sample after `xs` is one more step of `push`: so a run of `push` calls
/// leaves the buffer at `pushed` of the samples they recorded.
pub proof fn lemma_pushed_one_more<S>(samples: Seq<S>, write_ptr: int, xs: Seq<S>, x: S)
    ensures
        pushed(samples, write_ptr, xs.push(x)) == ({
            let (s, p) = pushed(samples, write_ptr, xs);
            (s.update(p, x), (p + 1) % (s.len() as int))
        }),
{
    assert(xs.push(x).drop_last() =~= xs);
}

} // verus!
