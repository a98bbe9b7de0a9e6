//! Short-time energy as a per-sample running accumulator.
//!
//! No frame buffer exists: each sample is squared into the accumulator and
//! gone. In RTL this is one multiplier and a 39-bit accumulator register
//! (320 * 32767² < 2^39), cleared on each frame strobe.
use vstd::prelude::*;

use super::FRAME_LEN;

verus! {

/// Square of one sample, as a mathematical integer.
pub open spec fn square(s: i16) -> int {
    (s as int) * (s as int)
}

/// Sum of squares of a run of samples.
pub open spec fn sum_squares(s: Seq<i16>) -> int
    decreases s.len(),
{
    if s.len() == 0 {
        0
    } else {
        sum_squares(s.drop_last()) + square(s.last())
    }
}

/// A frame's sum of squares as the accumulator register holds it.
pub open spec fn frame_energy(s: Seq<i16>) -> u64 {
    sum_squares(s) as u64
}

/// Each square is at most 2^30, so `n` samples sum to at most `n * 2^30`.
pub proof fn lemma_sum_squares_bounds(s: Seq<i16>)
    ensures
        0 <= sum_squares(s) <= s.len() * 0x4000_0000,
    decreases s.len(),
{
    if s.len() > 0 {
        lemma_sum_squares_bounds(s.drop_last());
        let x = s.last();
        assert(0 <= square(x) <= 0x4000_0000) by (nonlinear_arith)
            requires
                -32768 <= x <= 32767,
        ;
    }
}

/// One accumulator step on the pending samples: the sample joins the frame
/// in progress; when that completes a frame, its sum of squares comes out
/// and the next frame starts empty.
pub open spec fn acc_step(pending: Seq<i16>, sample: i16) -> (Seq<i16>, Option<u64>) {
    if pending.len() + 1 < FRAME_LEN {
        (pending.push(sample), None)
    } else {
        (Seq::empty(), Some(frame_energy(pending.push(sample))))
    }
}

/// Pending samples after pushing `samples` into a fresh accumulator.
pub open spec fn acc_after(samples: Seq<i16>) -> Seq<i16>
    decreases samples.len(),
{
    if samples.len() == 0 {
        Seq::empty()
    } else {
        acc_step(acc_after(samples.drop_last()), samples.last()).0
    }
}

/// Result of push number `n` (from 0) in a run of `samples` from a fresh
/// accumulator.
pub open spec fn acc_output_at(samples: Seq<i16>, n: int) -> Option<u64> {
    acc_step(acc_after(samples.take(n)), samples[n]).1
}

/// A run from a fresh accumulator: after `L` pushes the accumulator holds
/// the last `L % FRAME_LEN` samples, and push `n` returns the sum of
/// squares of samples `n - 319 ..= n` exactly when it completes a frame
/// (`(n + 1) % FRAME_LEN == 0`), `None` otherwise. The sum fits in 39 bits.
pub proof fn lemma_accumulator_run(samples: Seq<i16>, n: int)
    requires
        0 <= n < samples.len(),
    ensures
        acc_after(samples) == samples.subrange(samples.len() as int - (samples.len() as int) % (FRAME_LEN as int), samples.len() as int),
        acc_output_at(samples, n) == if (n + 1) % (FRAME_LEN as int) == 0 {
            Some(frame_energy(samples.subrange(n + 1 - FRAME_LEN, n + 1)))
        } else {
            None::<u64>
        },
        (n + 1) % (FRAME_LEN as int) == 0 ==> sum_squares(samples.subrange(n + 1 - FRAME_LEN, n + 1)) < 0x80_0000_0000,
{
    lemma_acc_after(samples);
    lemma_acc_after(samples.take(n));
    let f = FRAME_LEN as int;
    assert(f == 320);
    assert(0 <= n % f < f);
    assert(n % f <= n);
    assert(samples.take(n).subrange(n - n % f, n) =~= samples.subrange(n - n % f, n));
    if (n + 1) % f == 0 {
        assert(samples.subrange(n - n % f, n).push(samples[n]) =~= samples.subrange(n + 1 - f, n + 1));
        lemma_sum_squares_bounds(samples.subrange(n + 1 - f, n + 1));
    }
}

proof fn lemma_acc_after(samples: Seq<i16>)
    ensures
        acc_after(samples) == samples.subrange(samples.len() as int - (samples.len() as int) % (FRAME_LEN as int), samples.len() as int),
    decreases samples.len(),
{
    let f = FRAME_LEN as int;
    let l = samples.len() as int;
    assert(f == 320);
    if l > 0 {
        let pre = samples.drop_last();
        lemma_acc_after(pre);
        let m = l - 1;
        assert(pre.subrange(m - m % f, m) =~= samples.subrange(m - m % f, m));
        if m % f + 1 < f {
            assert(l % f == m % f + 1);
            assert(samples.subrange(m - m % f, m).push(samples.last()) =~= samples.subrange(l - l % f, l));
        } else {
            assert(l % f == 0);
            assert(samples.subrange(l, l) =~= Seq::<i16>::empty());
        }
    } else {
        assert(samples.subrange(0, 0) =~= Seq::<i16>::empty());
    }
}

pub struct EnergyAccumulator {
    sum_sq: u64,
    count: u32,
    /// The samples of the frame in progress; they exist only in the proof.
    pending: Ghost<Seq<i16>>,
}

impl EnergyAccumulator {
    /// Samples of the current, not yet completed frame.
    pub closed spec fn pending(&self) -> Seq<i16> {
        self.pending@
    }

    pub closed spec fn wf(&self) -> bool {
        &&& self.count as nat == self.pending@.len()
        &&& self.count < FRAME_LEN
        &&& self.sum_sq as int == sum_squares(self.pending@)
    }

    /// A well-formed accumulator holds less than one frame.
    pub proof fn lemma_pending_bound(&self)
        requires
            self.wf(),
        ensures
            self.pending().len() < FRAME_LEN,
    {
    }

    pub fn new() -> (r: Self)
        ensures
            r.wf(),
            r.pending() == Seq::<i16>::empty(),
    {
        Self { sum_sq: 0, count: 0, pending: Ghost(Seq::empty()) }
    }

    /// The frame's sum of squares if `sample` would complete a frame,
    /// without accumulating it.
    pub fn peek(&self, sample: i16) -> (r: Option<u64>)
        requires
            self.wf(),
        ensures
            r == acc_step(self.pending(), sample).1,
    {
        let ghost next = self.pending@.push(sample);
        proof {
            assert(next.drop_last() =~= self.pending@);
            lemma_sum_squares_bounds(next);
        }
        let s = sample as i64;
        proof {
            assert(0 <= s * s <= 0x4000_0000 && s * s == square(sample)) by (nonlinear_arith)
                requires
                    s == sample as int,
                    -32768 <= s <= 32767,
            ;
        }
        if self.count + 1 == FRAME_LEN {
            Some(self.sum_sq + (s * s) as u64)
        } else {
            None
        }
    }

    /// Accumulate one sample. Returns the frame's sum of squares when this
    /// sample completes a frame, then resets for the next frame.
    pub fn push(&mut self, sample: i16) -> (r: Option<u64>)
        requires
            old(self).wf(),
        ensures
            final(self).wf(),
            (final(self).pending(), r) == acc_step(old(self).pending(), sample),
            old(self).pending().len() + 1 == FRAME_LEN ==> {
                &&& r == Some(frame_energy(old(self).pending().push(sample)))
                &&& sum_squares(old(self).pending().push(sample)) <= u64::MAX
                &&& final(self).pending() == Seq::<i16>::empty()
            },
            old(self).pending().len() + 1 < FRAME_LEN ==> {
                &&& r is None
                &&& final(self).pending() == old(self).pending().push(sample)
            },
    {
        let ghost next = self.pending@.push(sample);
        proof {
            assert(next.drop_last() =~= self.pending@);
            lemma_sum_squares_bounds(next);
        }
        let s = sample as i64;
        proof {
            assert(0 <= s * s <= 0x4000_0000 && s * s == square(sample)) by (nonlinear_arith)
                requires
                    s == sample as int,
                    -32768 <= s <= 32767,
            ;
        }
        let sq = s * s;
        self.sum_sq = self.sum_sq + sq as u64;
        self.count = self.count + 1;
        self.pending = Ghost(next);
        if self.count == FRAME_LEN {
            let out = self.sum_sq;
            self.sum_sq = 0;
            self.count = 0;
            self.pending = Ghost(Seq::empty());
            Some(out)
        } else {
            None
        }
    }
}

} // verus!
