use vstd::prelude::*;

use crate::model::{copy_sig, sig_eq, TypeSig};

verus! {

/// The generic-argument stack: a stack of frames, each an ordered list of
/// concrete type expressions. The top frame is the resolution context for
/// any positional index met until it is popped. Pushes and pops must pair
/// in strict LIFO order; the contracts of `push_frame`, `push_frames`,
/// `pop_frame` and `pop_frames` hold every caller to that, including on
/// early exits, so frames never leak across unrelated recursion branches.
#[derive(Debug)]
pub struct GenericStack {
    pub frames: Vec<Vec<TypeSig>>,
}

impl GenericStack {
    pub fn new() -> (r: Self)
        ensures
            r.frames@.len() == 0,
    {
        GenericStack { frames: Vec::new() }
    }

    pub fn depth(&self) -> (r: usize)
        ensures
            r == self.frames@.len(),
    {
        self.frames.len()
    }

    /// Push one frame; it becomes the active resolution context.
    pub fn push_frame(&mut self, frame: Vec<TypeSig>)
        ensures
            final(self).frames@ == old(self).frames@.push(frame),
    {
        self.frames.push(frame);
    }

    /// Pop exactly the frame pushed last.
    pub fn pop_frame(&mut self)
        requires
            old(self).frames@.len() > 0,
        ensures
            final(self).frames@ == old(self).frames@.drop_last(),
    {
        let _popped = self.frames.pop();
        proof {
            assert(final(self).frames@ =~= old(self).frames@.drop_last());
        }
    }

    /// Append copies of a whole frame chain, outermost first.
    pub fn push_frames(&mut self, frames: &Vec<Vec<TypeSig>>)
        ensures
            final(self).frames@.len() == old(self).frames@.len() + frames@.len(),
            forall|i: int|
                0 <= i < old(self).frames@.len() ==> final(self).frames@[i] == old(
                    self,
                ).frames@[i],
            forall|i: int|
                0 <= i < frames@.len() ==> (#[trigger] final(self).frames@[old(
                    self,
                ).frames@.len() + i])@.len() == frames@[i]@.len(),
            forall|i: int, j: int|
                0 <= i < frames@.len() && 0 <= j < frames@[i]@.len() ==> sig_eq(
                    frames@[i]@[j],
                    #[trigger] final(self).frames@[old(self).frames@.len() + i]@[j],
                ),
    {
        let ghost base = old(self).frames@;
        let mut k: usize = 0;
        while k < frames.len()
            invariant
                k <= frames@.len(),
                base == old(self).frames@,
                self.frames@.len() == base.len() + k,
                forall|t: int| 0 <= t < base.len() ==> self.frames@[t] == base[t],
                forall|t: int|
                    0 <= t < k ==> (#[trigger] self.frames@[base.len() + t])@.len()
                        == frames@[t]@.len(),
                forall|t: int, j: int|
                    0 <= t < k && 0 <= j < frames@[t]@.len() ==> sig_eq(
                        frames@[t]@[j],
                        #[trigger] self.frames@[base.len() + t]@[j],
                    ),
            decreases frames@.len() - k,
        {
            let src = &frames[k];
            let mut f: Vec<TypeSig> = Vec::new();
            let mut j: usize = 0;
            while j < src.len()
                invariant
                    j <= src@.len(),
                    f@.len() == j,
                    forall|t: int| 0 <= t < j ==> sig_eq(src@[t], #[trigger] f@[t]),
                decreases src@.len() - j,
            {
                f.push(copy_sig(&src[j]));
                j += 1;
            }
            self.frames.push(f);
            k += 1;
        }
    }

    /// Drop the last `n` frames, in LIFO order.
    pub fn pop_frames(&mut self, n: usize)
        requires
            n <= old(self).frames@.len(),
        ensures
            final(self).frames@ == old(self).frames@.take(old(self).frames@.len() - n),
    {
        let mut i: usize = 0;
        while i < n
            invariant
                i <= n,
                n <= old(self).frames@.len(),
                self.frames@ == old(self).frames@.take(old(self).frames@.len() - i),
            decreases n - i,
        {
            let _popped = self.frames.pop();
            i += 1;
            proof {
                assert(self.frames@ =~= old(self).frames@.take(
                    old(self).frames@.len() - i,
                ));
            }
        }
    }

    /// Resolve a positional index against the active frame. Calling with no
    /// active frame or an out-of-range index is a caller contract
    /// violation, so the contract forbids it.
    pub fn resolve(&self, index: u32) -> (r: TypeSig)
        requires
            self.frames@.len() > 0,
            (index as int) < self.frames@[self.frames@.len() - 1]@.len(),
        ensures
            sig_eq(self.frames@[self.frames@.len() - 1]@[index as int], r),
    {
        copy_sig(&self.frames[self.frames.len() - 1][index as usize])
    }
}

} // verus!
