use vstd::prelude::*;

use crate::model::{absorbed, lemma_absorbed_processes, processes};
use crate::{fixed_conforming, FixedOutput, Input, Op, Reset};

verus! {

/// Common interface of digest functions: a convenience layer over `Input`,
/// `Reset` and `FixedOutput`, available to every type that has those.
pub trait Digest: FixedOutput {
    /// Create new hasher instance.
    fn new() -> (r: Self)
        ensures
            r.history() == Seq::<Op>::empty(),
    {
        Self::init()
    }

    /// Digest input data. This method can be called repeatedly for use
    /// with streaming messages.
    fn input(&mut self, buf: &[u8])
        ensures
            final(self).history() == old(self).history().push(Op::Process(buf@)),
    {
        self.process(buf);
    }

    /// Retrieve result and consume hasher instance.
    fn result(self) -> (r: Vec<u8>)
        ensures
            r@ == Self::result_of(self.history()),
            r@.len() == Self::output_len(),
    {
        self.fixed_result()
    }

    /// Retrieve result and reset hasher instance.
    fn result_reset(&mut self) -> (r: Vec<u8>)
        ensures
            r@ == Self::result_of(old(self).history()),
            r@.len() == Self::output_len(),
            final(self).history() == old(self).history().push(Op::Reset),
    {
        self.fixed_result_reset()
    }

    /// Get output size of the hasher.
    fn output_size() -> (r: usize)
        ensures
            r == Self::output_len(),
    {
        Self::fixed_output_size()
    }

    /// Compute the hash of `data` in one call: create a hasher, feed it
    /// the data and finalize it.
    fn digest(data: &[u8]) -> (r: Vec<u8>)
        ensures
            r@ == Self::result_of(seq![Op::Process(data@)]),
            r@.len() == Self::output_len(),
    {
        let mut hasher = Self::init();
        hasher.process(data);
        proof {
            assert(hasher.history() =~= seq![Op::Process(data@)]);
        }
        hasher.fixed_result()
    }
}

/// For a correct hasher, an instance that has been reset, once fed a
/// message `x`, gives the result that hashing `x` in one call gives: a
/// reset instance cannot be told apart from a new one.
pub proof fn lemma_reset_then_hash<D: FixedOutput>(h: Seq<Op>, x: Seq<u8>)
    requires
        fixed_conforming::<D>(),
    ensures
        D::result_of(h.push(Op::Reset).push(Op::Process(x))) == D::result_of(seq![Op::Process(x)]),
{
    lemma_absorbed_processes(h, seq![x]);
    lemma_absorbed_processes(h, seq![x]);
    assert(h.push(Op::Reset) + processes(seq![x]) =~= h.push(Op::Reset).push(Op::Process(x)));
    assert(processes(seq![x]) =~= seq![Op::Process(x)]);
    assert(seq![x].flatten() =~= x) by {
        seq![x].lemma_flatten_one_element();
    }
    assert(absorbed(seq![Op::Process(x)]) == x);
}

impl<D: FixedOutput> Digest for D {

}

} // verus!
