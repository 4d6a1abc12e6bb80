//! A one-byte additive checksum: a small hasher that meets the capability
//! contracts, with every model function given its meaning.
use vstd::prelude::*;

use crate::model::absorbed;
use crate::{fixed_conforming, BlockInput, FixedOutput, Input, Op, Reset};

verus! {

/// Sum of the bytes of a message.
pub open spec fn byte_sum(msg: Seq<u8>) -> nat
    decreases msg.len(),
{
    if msg.len() == 0 {
        0
    } else {
        byte_sum(msg.drop_last()) + msg.last() as nat
    }
}

/// The checksum of a message: the sum of its bytes modulo 256.
pub open spec fn checksum_of(msg: Seq<u8>) -> Seq<u8> {
    seq![(byte_sum(msg) % 256) as u8]
}

/// Sum of the bytes absorbed since the last reset, modulo 256.
pub struct Checksum {
    acc: u8,
    ops: Ghost<Seq<Op>>,
}

impl Checksum {
    #[verifier::type_invariant]
    spec fn inv(&self) -> bool {
        self.acc as nat == byte_sum(absorbed(self.ops@)) % 256
    }
}

impl Input for Checksum {
    closed spec fn history(&self) -> Seq<Op> {
        self.ops@
    }

    open spec fn requested_len(&self) -> nat {
        0
    }

    fn process(&mut self, buf: &[u8]) {
        proof {
            use_type_invariant(&*self);
        }
        let ghost start = absorbed(self.ops@);
        let mut acc = self.acc;
        let mut i: usize = 0;
        while i < buf.len()
            invariant
                i <= buf@.len(),
                acc as nat == byte_sum(start + buf@.take(i as int)) % 256,
            decreases buf@.len() - i,
        {
            proof {
                assert((start + buf@.take(i + 1)).drop_last() =~= start + buf@.take(i as int));
            }
            acc = acc.wrapping_add(buf[i]);
            i = i + 1;
        }
        proof {
            assert(buf@.take(i as int) =~= buf@);
            assert(absorbed(self.ops@.push(Op::Process(buf@))) == start + buf@) by {
                assert(self.ops@.push(Op::Process(buf@)).drop_last() =~= self.ops@);
            }
        }
        let ghost ops = self.ops@.push(Op::Process(buf@));
        *self = Checksum { acc, ops: Ghost(ops) };
    }
}

impl Reset for Checksum {
    fn init() -> (r: Self) {
        Checksum { acc: 0, ops: Ghost(Seq::empty()) }
    }

    fn reset(&mut self) -> (r: Self) {
        let ghost ops = self.ops@.push(Op::Reset);
        let mut fresh = Checksum { acc: 0, ops: Ghost(ops) };
        core::mem::swap(self, &mut fresh);
        fresh
    }
}

impl FixedOutput for Checksum {
    open spec fn output_len() -> nat {
        1
    }

    open spec fn result_of(h: Seq<Op>) -> Seq<u8> {
        checksum_of(absorbed(h))
    }

    open spec fn fixed_spec(msg: Seq<u8>) -> Seq<u8> {
        checksum_of(msg)
    }

    fn fixed_output_size() -> (r: usize) {
        1
    }

    fn fixed_result(self) -> (r: Vec<u8>) {
        proof {
            use_type_invariant(&self);
        }
        let r = vec![self.acc];
        proof {
            assert((byte_sum(absorbed(self.ops@)) % 256) as u8 == self.acc);
            assert(r@[0] == self.acc);
            assert(r@ =~= checksum_of(absorbed(self.ops@)));
            assert(self.history() == self.ops@);
            assert(r@ == Self::result_of(self.history()));
        }
        r
    }
}

impl BlockInput for Checksum {
    fn block_size() -> usize {
        1
    }
}

/// The checksum is a correct fixed-output hasher.
pub proof fn lemma_checksum_conforms()
    ensures
        fixed_conforming::<Checksum>(),
{
}

} // verus!
