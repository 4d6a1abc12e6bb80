//! Capability contracts for incremental hash functions, and a conformance
//! harness that drives any implementation through recorded test vectors.
//!
//! Every hasher is modelled by its history: the `process` calls and resets
//! made on it since it was created. Its results are functions of that
//! history, which a correct hasher makes depend only on the bytes absorbed
//! since the last reset; a faulty one may not, and the harness contracts
//! say what the harness reports for either.
//!
//! The model functions of each trait have placeholder bodies so that
//! implementations written outside verified code still compile. Verified
//! code reasons about a generic implementation through the contracts
//! alone, never through those bodies, and a verified implementation must
//! give the model functions their real meaning to meet the contracts.
use vstd::prelude::*;

pub mod checksum;
pub mod dev;
mod digest;
mod errors;
pub mod feed;
pub mod model;
pub mod vectors;

pub use digest::{lemma_reset_then_hash, Digest};
pub use errors::InvalidOutputSize;
pub use model::Op;

use model::{absorbed, total, zeros};

verus! {

/// Processing of input data.
pub trait Input: Sized {
    /// The operations made on the instance since it was created.
    closed spec fn history(&self) -> Seq<Op> {
        Seq::empty()
    }

    /// The output size that the instance was created with, for types whose
    /// callers choose it; processing input never changes it.
    closed spec fn requested_len(&self) -> nat {
        0
    }

    /// Digest input data. This method can be called repeatedly, e.g. for
    /// processing streaming messages.
    fn process(&mut self, buf: &[u8])
        ensures
            final(self).history() == old(self).history().push(Op::Process(buf@)),
            final(self).requested_len() == old(self).requested_len(),
    ;
}

/// Creation in the initial state, and return to it.
pub trait Reset: Input {
    /// Create an instance in its initial state, with an empty history.
    fn init() -> (r: Self)
        ensures
            r.history() == Seq::<Op>::empty(),
    ;

    /// Reset `self` and hand back the state it had before, so that a caller
    /// can both extract a result and go on.
    fn reset(&mut self) -> (r: Self)
        ensures
            r == *old(self),
            final(self).history() == old(self).history().push(Op::Reset),
            final(self).requested_len() == old(self).requested_len(),
    ;
}

/// Advertises the size of the block that the hash function processes data
/// in; used by constructions such as keyed hashing over a hash.
pub trait BlockInput {
    /// Block size in bytes.
    fn block_size() -> usize;
}

/// Result of a fixed size, the same for every instance of a type.
pub trait FixedOutput: Reset {
    /// Number of bytes in every result of this type.
    closed spec fn output_len() -> nat {
        0
    }

    /// The result that an instance with history `h` gives.
    closed spec fn result_of(h: Seq<Op>) -> Seq<u8> {
        Seq::empty()
    }

    /// The result for a message, as a correct hasher gives it.
    closed spec fn fixed_spec(msg: Seq<u8>) -> Seq<u8> {
        Seq::empty()
    }

    /// Number of bytes in every result of this type.
    fn fixed_output_size() -> (r: usize)
        ensures
            r == Self::output_len(),
    ;

    /// Retrieve result and consume hasher instance.
    fn fixed_result(self) -> (r: Vec<u8>)
        ensures
            r@ == Self::result_of(self.history()),
            r@.len() == Self::output_len(),
    ;

    /// Retrieve result and reset hasher instance.
    ///
    /// Implementations may override this with a faster equivalent.
    fn fixed_result_reset(&mut self) -> (r: Vec<u8>)
        ensures
            r@ == Self::result_of(old(self).history()),
            r@.len() == Self::output_len(),
            final(self).history() == old(self).history().push(Op::Reset),
    {
        let before = self.reset();
        before.fixed_result()
    }
}

/// Whether a fixed-output type is correct: every result is the result for
/// the bytes absorbed since the last reset.
pub open spec fn fixed_conforming<D: FixedOutput>() -> bool {
    forall|h: Seq<Op>| #[trigger] D::result_of(h) == D::fixed_spec(absorbed(h))
}

/// Result of a size that the caller chooses when creating the instance.
pub trait VariableOutput: Reset {
    /// Whether this type can produce results of `n` bytes.
    closed spec fn supports(n: nat) -> bool {
        false
    }

    /// What writing the result of an instance with history `h` and output
    /// size `n` leaves in a buffer that held `before`.
    closed spec fn variable_result_of(h: Seq<Op>, n: nat, before: Seq<u8>) -> Seq<u8> {
        Seq::empty()
    }

    /// The result of `n` bytes for a message, as a correct hasher gives it.
    closed spec fn variable_spec(msg: Seq<u8>, n: nat) -> Seq<u8> {
        Seq::empty()
    }

    /// Create new hasher instance with given output size. Returns
    /// `Err(InvalidOutputSize)` if the hasher cannot work with that size,
    /// which is always the case for zero.
    fn new(output_size: usize) -> (r: Result<Self, InvalidOutputSize>)
        ensures
            r is Ok <==> (output_size > 0 && Self::supports(output_size as nat)),
            r is Ok ==> r->Ok_0.requested_len() == output_size,
            r is Ok ==> r->Ok_0.history() == Seq::<Op>::empty(),
    ;

    /// Get the output size given to `new`.
    fn output_size(&self) -> (r: usize)
        ensures
            r == self.requested_len(),
            r > 0,
            Self::supports(r as nat),
    ;

    /// Write the result into `buffer`, whose length is the output size,
    /// and consume the hasher.
    fn variable_result(self, buffer: &mut [u8])
        requires
            old(buffer)@.len() == self.requested_len(),
        ensures
            final(buffer)@ == Self::variable_result_of(
                self.history(),
                self.requested_len(),
                old(buffer)@,
            ),
            final(buffer)@.len() == old(buffer)@.len(),
    ;

    /// Write the result into `buffer`, whose length is the output size,
    /// and reset the hasher, keeping its output size.
    fn variable_result_reset(&mut self, buffer: &mut [u8])
        requires
            old(buffer)@.len() == old(self).requested_len(),
        ensures
            final(buffer)@ == Self::variable_result_of(
                old(self).history(),
                old(self).requested_len(),
                old(buffer)@,
            ),
            final(buffer)@.len() == old(buffer)@.len(),
            final(self).history() == old(self).history().push(Op::Reset),
            final(self).requested_len() == old(self).requested_len(),
    {
        let before = self.reset();
        before.variable_result(buffer);
    }

    /// Retrieve the result as a new vector and consume the hasher.
    fn vec_result(self) -> (r: Vec<u8>)
        ensures
            r@ == Self::variable_result_of(
                self.history(),
                self.requested_len(),
                zeros(self.requested_len()),
            ),
            r@.len() == self.requested_len(),
    {
        let n = self.output_size();
        let mut buf: Vec<u8> = vec![0u8; n];
        proof {
            assert(buf@ =~= zeros(n as nat));
        }
        self.variable_result(buf.as_mut_slice());
        buf
    }
}

/// Whether a variable-output type is correct: every result fills the
/// whole buffer with the result for the bytes absorbed since the last
/// reset.
pub open spec fn variable_conforming<D: VariableOutput>() -> bool {
    forall|h: Seq<Op>, n: nat, before: Seq<u8>|
        before.len() == n ==> #[trigger] D::variable_result_of(h, n, before) == D::variable_spec(
            absorbed(h),
            n,
        )
}

/// Reader of the output stream of an extendable-output function.
pub trait XofReader: Sized {
    /// The history of the hasher that the reader was taken from.
    closed spec fn origin(&self) -> Seq<Op> {
        Seq::empty()
    }

    /// The buffer lengths of the `read` calls made so far, in order.
    closed spec fn read_lens(&self) -> Seq<nat> {
        Seq::empty()
    }

    /// What a read leaves in a buffer that held `before`, for a reader
    /// taken from a hasher with history `origin` after reads of `lens`.
    closed spec fn output_of(origin: Seq<Op>, lens: Seq<nat>, before: Seq<u8>) -> Seq<u8> {
        Seq::empty()
    }

    /// Fill `buffer` with the next bytes of the stream. Can be called any
    /// number of times.
    fn read(&mut self, buffer: &mut [u8])
        ensures
            final(buffer)@ == Self::output_of(old(self).origin(), old(self).read_lens(), old(buffer)@),
            final(buffer)@.len() == old(buffer)@.len(),
            final(self).origin() == old(self).origin(),
            final(self).read_lens() == old(self).read_lens().push(old(buffer)@.len()),
    ;
}

/// Extendable output: a stream of any length, read through a reader.
pub trait ExtendableOutput: Input {
    type Reader: XofReader;

    /// Byte `i` of the output stream for a message, as a correct hasher
    /// gives it.
    closed spec fn xof_spec(msg: Seq<u8>, i: nat) -> u8 {
        0
    }

    /// Retrieve a reader positioned at the start of the output stream, and
    /// reset the hasher instance.
    fn xof_result(&mut self) -> (r: Self::Reader)
        ensures
            r.origin() == old(self).history(),
            r.read_lens() == Seq::<nat>::empty(),
            final(self).history() == old(self).history().push(Op::Reset),
            final(self).requested_len() == old(self).requested_len(),
    ;
}

/// Whether an extendable-output type is correct: every read fills its
/// whole buffer with the next bytes of the stream for the bytes absorbed
/// before the reader was taken.
pub open spec fn xof_conforming<D: ExtendableOutput>() -> bool {
    forall|origin: Seq<Op>, lens: Seq<nat>, before: Seq<u8>|
        #[trigger] D::Reader::output_of(origin, lens, before) == Seq::new(
            before.len(),
            |j: int| D::xof_spec(absorbed(origin), total(lens) + j as nat),
        )
}

} // verus!
