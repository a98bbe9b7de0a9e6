//! Assembles an incoming sample stream into fixed-length frames.
//! At most one partial frame of samples is ever held in memory.
use vstd::prelude::*;

verus! {

pub struct Framer<T> {
    frame_len: usize,
    buf: Vec<T>,
}

impl<T: Copy> Framer<T> {
    /// Samples of the partial frame held for the next call.
    pub closed spec fn buffered(&self) -> Seq<T> {
        self.buf@
    }

    pub closed spec fn frame_length(&self) -> nat {
        self.frame_len as nat
    }

    pub closed spec fn wf(&self) -> bool {
        &&& self.frame_len > 0
        &&& self.buf@.len() < self.frame_len
    }

    pub fn new(frame_len: usize) -> (r: Self)
        requires
            frame_len > 0,
        ensures
            r.wf(),
            r.frame_length() == frame_len,
            r.buffered() == Seq::<T>::empty(),
    {
        Self { frame_len, buf: Vec::new() }
    }

    /// Feed samples in; get back every completed frame. Leftover samples
    /// (less than one frame) stay buffered for the next call.
    pub fn push(&mut self, samples: &[T]) -> (frames: Vec<Vec<T>>)
        requires
            old(self).wf(),
        ensures
            final(self).wf(),
            final(self).frame_length() == old(self).frame_length(),
            ({
                let all = old(self).buffered() + samples@;
                let n = old(self).frame_length();
                &&& frames@.len() == all.len() / n
                &&& forall|j: int| 0 <= j < frames@.len() ==> #[trigger] frames@[j]@ == all.subrange(j * n, j * n + n)
                &&& final(self).buffered() == all.subrange((frames@.len() * n) as int, all.len() as int)
            }),
    {
        let ghost all = self.buf@ + samples@;
        let ghost n = self.frame_len as int;
        let mut frames: Vec<Vec<T>> = Vec::new();
        let mut i: usize = 0;
        assert(frames@.len() * n == 0) by (nonlinear_arith)
            requires
                frames@.len() == 0,
        ;
        assert(self.buf@ =~= all.subrange(0, old(self).buffered().len() as int));
        while i < samples.len()
            invariant
                n == self.frame_len,
                n > 0,
                all == old(self).buffered() + samples@,
                0 <= i <= samples@.len(),
                frames@.len() * n + self.buf@.len() == old(self).buffered().len() + i,
                self.buf@.len() < n,
                forall|j: int| 0 <= j < frames@.len() ==> #[trigger] frames@[j]@ == all.subrange(j * n, j * n + n),
                self.buf@ == all.subrange(frames@.len() * n, old(self).buffered().len() + i),
            decreases samples@.len() - i,
        {
            let ghost k = frames@.len() as int;
            self.buf.push(samples[i]);
            i = i + 1;
            assert(self.buf@ =~= all.subrange(k * n, old(self).buffered().len() + i));
            if self.buf.len() == self.frame_len {
                let mut full = Vec::new();
                std::mem::swap(&mut full, &mut self.buf);
                frames.push(full);
                assert((k + 1) * n == k * n + n) by (nonlinear_arith);
                assert(self.buf@ =~= all.subrange((k + 1) * n, old(self).buffered().len() + i));
            }
        }
        let ghost k = frames@.len() as int;
        let ghost r = self.buf@.len() as int;
        assert(all.len() as int / n == k) by (nonlinear_arith)
            requires
                all.len() as int == k * n + r,
                0 <= r < n,
                k >= 0,
        ;
        assert(all.subrange(frames@.len() * n, old(self).buffered().len() + i) =~= all.subrange(
            frames@.len() * n,
            all.len() as int,
        ));
        frames
    }
}

} // verus!
