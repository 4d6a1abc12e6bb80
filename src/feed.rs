//! Ways of feeding a message to a hasher, and of reading an output stream,
//! that the conformance harness exercises.
use vstd::prelude::*;

use crate::model::{lemma_absorbed_processes, lemma_total_ones, ones, processes, total, zeros};
use crate::{fixed_conforming, xof_conforming, ExtendableOutput, FixedOutput, Input, Op, XofReader};

verus! {

/// For a correct hasher and any partition of a message `x` into
/// consecutive chunks, processing the chunks one call each from the initial
/// state gives the same result as processing `x` in one call.
pub proof fn lemma_partition_invariance<D: FixedOutput>(x: Seq<u8>, chunks: Seq<Seq<u8>>)
    requires
        fixed_conforming::<D>(),
        chunks.flatten() == x,
    ensures
        D::result_of(processes(chunks)) == D::result_of(seq![Op::Process(x)]),
{
    lemma_absorbed_processes(Seq::empty(), chunks);
    lemma_absorbed_processes(Seq::empty(), seq![x]);
    assert(processes(seq![x]) =~= seq![Op::Process(x)]);
    seq![x].lemma_flatten_one_element();
}

/// Feed `chunks` to the hasher, one `process` call per chunk, in order.
pub fn feed_chunks<D: Input>(hasher: &mut D, chunks: &Vec<Vec<u8>>)
    ensures
        final(hasher).history() == old(hasher).history() + processes(
            chunks@.map_values(|c: Vec<u8>| c@),
        ),
        final(hasher).requested_len() == old(hasher).requested_len(),
{
    let ghost all = chunks@.map_values(|c: Vec<u8>| c@);
    let mut i: usize = 0;
    while i < chunks.len()
        invariant
            i <= chunks@.len(),
            all == chunks@.map_values(|c: Vec<u8>| c@),
            hasher.history() == old(hasher).history() + processes(all.take(i as int)),
            hasher.requested_len() == old(hasher).requested_len(),
        decreases chunks@.len() - i,
    {
        hasher.process(chunks[i].as_slice());
        proof {
            assert(processes(all.take(i as int)).push(Op::Process(all[i as int])) =~= processes(
                all.take(i + 1),
            ));
        }
        i = i + 1;
    }
    proof {
        assert(all.take(i as int) =~= all);
    }
}

/// The pieces of the halving strategy: the first piece is the larger half
/// (rounded up) of `x`, and the rest are the halving pieces of what is left.
pub open spec fn halving_pieces(x: Seq<u8>) -> Seq<Seq<u8>>
    decreases x.len(),
{
    if x.len() == 0 {
        Seq::empty()
    } else {
        let take = (x.len() + 1) / 2;
        seq![x.take(take as int)] + halving_pieces(x.skip(take as int))
    }
}

/// The halving pieces of `x` are non-empty and make up `x`, in order.
pub proof fn lemma_halving_pieces(x: Seq<u8>)
    ensures
        halving_pieces(x).flatten() == x,
        forall|k: int| 0 <= k < halving_pieces(x).len() ==> #[trigger] halving_pieces(x)[k].len() > 0,
    decreases x.len(),
{
    if x.len() > 0 {
        let take = (x.len() + 1) / 2;
        let rest = x.skip(take as int);
        lemma_halving_pieces(rest);
        let hp = halving_pieces(x);
        assert(hp.drop_first() =~= halving_pieces(rest));
        assert(x.take(take as int) + rest =~= x);
        assert forall|k: int| 0 <= k < hp.len() implies #[trigger] hp[k].len() > 0 by {
            if k > 0 {
                assert(hp[k] == halving_pieces(rest)[k - 1]);
            }
        }
    }
}

/// The pieces of the byte-by-byte strategy: one piece per byte of `x`.
pub open spec fn byte_pieces(x: Seq<u8>) -> Seq<Seq<u8>> {
    Seq::new(x.len(), |k: int| x.subrange(k, k + 1))
}

/// The byte pieces of `x` make up `x`.
pub proof fn lemma_byte_pieces(x: Seq<u8>)
    ensures
        byte_pieces(x).flatten() == x,
    decreases x.len(),
{
    if x.len() > 0 {
        let init = x.drop_last();
        lemma_byte_pieces(init);
        let bp = byte_pieces(init).push(x.subrange(x.len() - 1, x.len() as int));
        assert forall|k: int| 0 <= k < x.len() implies #[trigger] byte_pieces(x)[k] == bp[k] by {
            if k < x.len() - 1 {
                assert(x.subrange(k, k + 1) =~= init.subrange(k, k + 1));
            }
        }
        assert(byte_pieces(x) =~= bp);
        byte_pieces(init).lemma_flatten_push(x.subrange(x.len() - 1, x.len() as int));
        assert(init + x.subrange(x.len() - 1, x.len() as int) =~= x);
    }
}

/// Feed `input` in pieces of decreasing size: each piece is the larger half
/// (rounded up) of what is left, until nothing is left.
pub fn feed_halving<D: Input>(hasher: &mut D, input: &[u8])
    ensures
        final(hasher).history() == old(hasher).history() + processes(halving_pieces(input@)),
        final(hasher).requested_len() == old(hasher).requested_len(),
{
    let len = input.len();
    let mut left = len;
    proof {
        assert(input@.skip(0) =~= input@);
        assert(old(hasher).history() + Seq::<Op>::empty() =~= old(hasher).history());
    }
    while left > 0
        invariant
            left <= len,
            len == input@.len(),
            hasher.history() + processes(halving_pieces(input@.skip(len - left))) == old(
                hasher,
            ).history() + processes(halving_pieces(input@)),
            hasher.requested_len() == old(hasher).requested_len(),
        decreases left,
    {
        let take = left - left / 2;
        let start = len - left;
        let ghost rest = input@.skip(start as int);
        let ghost before = hasher.history();
        hasher.process(&input[start..start + take]);
        proof {
            assert(take == (rest.len() + 1) / 2);
            assert(rest.take(take as int) =~= input@.subrange(start as int, start + take));
            assert(rest.skip(take as int) =~= input@.skip(start + take));
            assert(halving_pieces(rest) == seq![rest.take(take as int)] + halving_pieces(
                rest.skip(take as int),
            ));
            assert(before.push(Op::Process(rest.take(take as int))) + processes(
                halving_pieces(rest.skip(take as int)),
            ) =~= before + processes(halving_pieces(rest)));
        }
        left = left - take;
    }
    proof {
        assert(input@.skip(len as int) =~= Seq::<u8>::empty());
        assert(hasher.history() + processes(Seq::<Seq<u8>>::empty()) =~= hasher.history());
    }
}

/// Feed `input` one byte per call.
pub fn feed_bytewise<D: Input>(hasher: &mut D, input: &[u8])
    ensures
        final(hasher).history() == old(hasher).history() + processes(byte_pieces(input@)),
        final(hasher).requested_len() == old(hasher).requested_len(),
{
    let len = input.len();
    let mut i: usize = 0;
    while i < len
        invariant
            i <= len,
            len == input@.len(),
            hasher.history() == old(hasher).history() + processes(
                byte_pieces(input@).take(i as int),
            ),
            hasher.requested_len() == old(hasher).requested_len(),
        decreases len - i,
    {
        hasher.process(&input[i..i + 1]);
        proof {
            assert(processes(byte_pieces(input@).take(i as int)).push(
                Op::Process(input@.subrange(i as int, i + 1)),
            ) =~= processes(byte_pieces(input@).take(i + 1)));
        }
        i = i + 1;
    }
    proof {
        assert(byte_pieces(input@).take(len as int) =~= byte_pieces(input@));
    }
}

/// The bytes that `n` reads of one byte each give, from a reader taken
/// from a hasher with history `origin` after reads of `lens`.
pub open spec fn bytewise_output<R: XofReader>(origin: Seq<Op>, lens: Seq<nat>, n: nat) -> Seq<
    u8,
> {
    Seq::new(n, |k: int| R::output_of(origin, lens + ones(k as nat), seq![0u8])[0])
}

/// Fill `buffer` from the reader with one `read` call per byte.
pub fn read_bytewise<R: XofReader>(reader: &mut R, buffer: &mut [u8])
    ensures
        final(buffer)@ == bytewise_output::<R>(
            old(reader).origin(),
            old(reader).read_lens(),
            old(buffer)@.len(),
        ),
        final(reader).origin() == old(reader).origin(),
        final(reader).read_lens() == old(reader).read_lens() + ones(old(buffer)@.len()),
{
    let len = buffer.len();
    let ghost start = *reader;
    let mut i: usize = 0;
    proof {
        assert(start.read_lens() + ones(0) =~= start.read_lens());
    }
    while i < len
        invariant
            i <= len,
            len == buffer@.len(),
            len == old(buffer)@.len(),
            start == *old(reader),
            reader.origin() == start.origin(),
            reader.read_lens() == start.read_lens() + ones(i as nat),
            forall|k: int|
                0 <= k < i ==> buffer@[k] == R::output_of(
                    start.origin(),
                    start.read_lens() + ones(k as nat),
                    seq![0u8],
                )[0],
        decreases len - i,
    {
        let mut one = [0u8; 1];
        proof {
            assert(one@ =~= seq![0u8]);
        }
        reader.read(&mut one);
        buffer[i] = one[0];
        proof {
            assert(start.read_lens() + ones(i as nat) + seq![1nat] =~= start.read_lens() + ones(
                (i + 1) as nat,
            ));
        }
        i = i + 1;
    }
    proof {
        assert(buffer@ =~= bytewise_output::<R>(start.origin(), start.read_lens(), len as nat));
    }
}

/// For a correct extendable-output hasher, reading `a + b` bytes at once
/// gives what reading `a` bytes and then `b` more bytes gives.
pub proof fn lemma_read_split<D: ExtendableOutput>(origin: Seq<Op>, lens: Seq<nat>, a: nat, b: nat)
    requires
        xof_conforming::<D>(),
    ensures
        D::Reader::output_of(origin, lens, zeros(a + b)) == D::Reader::output_of(
            origin,
            lens,
            zeros(a),
        ) + D::Reader::output_of(origin, lens.push(a), zeros(b)),
{
    assert(lens.push(a).drop_last() =~= lens);
    assert(D::Reader::output_of(origin, lens, zeros(a + b)) =~= D::Reader::output_of(
        origin,
        lens,
        zeros(a),
    ) + D::Reader::output_of(origin, lens.push(a), zeros(b)));
}

/// For a correct extendable-output hasher, reading `n` bytes one byte per
/// call gives what one read of `n` bytes gives.
pub proof fn lemma_read_bytewise<D: ExtendableOutput>(origin: Seq<Op>, lens: Seq<nat>, n: nat)
    requires
        xof_conforming::<D>(),
    ensures
        bytewise_output::<D::Reader>(origin, lens, n) == D::Reader::output_of(
            origin,
            lens,
            zeros(n),
        ),
{
    assert forall|k: int| 0 <= k < n implies #[trigger] bytewise_output::<D::Reader>(
        origin,
        lens,
        n,
    )[k] == D::Reader::output_of(origin, lens, zeros(n))[k] by {
        lemma_total_ones(lens, k as nat);
    }
    assert(bytewise_output::<D::Reader>(origin, lens, n) =~= D::Reader::output_of(
        origin,
        lens,
        zeros(n),
    ));
}

/// Whether two byte strings are equal.
pub fn bytes_eq(a: &[u8], b: &[u8]) -> (r: bool)
    ensures
        r == (a@ == b@),
{
    if a.len() != b.len() {
        return false;
    }
    let mut i: usize = 0;
    while i < a.len()
        invariant
            a@.len() == b@.len(),
            i <= a@.len(),
            forall|k: int| 0 <= k < i ==> a@[k] == b@[k],
        decreases a@.len() - i,
    {
        if a[i] != b[i] {
            return false;
        }
        i = i + 1;
    }
    proof {
        assert(a@ =~= b@);
    }
    true
}

} // verus!
