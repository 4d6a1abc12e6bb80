//! The history model of a hasher: the operations made on an instance since
//! it was created, and what a history absorbs.
use vstd::prelude::*;

verus! {

/// One operation on a hasher instance.
pub enum Op {
    /// A `process` call with these bytes.
    Process(Seq<u8>),
    /// A reset, by itself or as part of extracting a result.
    Reset,
}

/// The history of `process` calls with these buffers, in order.
pub open spec fn processes(pieces: Seq<Seq<u8>>) -> Seq<Op> {
    pieces.map_values(|p: Seq<u8>| Op::Process(p))
}

/// The bytes processed since the last reset of a history.
pub open spec fn absorbed(h: Seq<Op>) -> Seq<u8>
    decreases h.len(),
{
    if h.len() == 0 {
        Seq::empty()
    } else {
        match h.last() {
            Op::Process(b) => absorbed(h.drop_last()) + b,
            Op::Reset => Seq::empty(),
        }
    }
}

/// Sum of a sequence of lengths.
pub open spec fn total(lens: Seq<nat>) -> nat
    decreases lens.len(),
{
    if lens.len() == 0 {
        0
    } else {
        total(lens.drop_last()) + lens.last()
    }
}

/// `n` lengths of one.
pub open spec fn ones(n: nat) -> Seq<nat> {
    Seq::new(n, |_k: int| 1nat)
}

/// `n` zero bytes.
pub open spec fn zeros(n: nat) -> Seq<u8> {
    Seq::new(n, |_k: int| 0u8)
}

/// A history that ends in process calls absorbs what they processed,
/// after whatever came before a reset.
pub proof fn lemma_absorbed_processes(h: Seq<Op>, pieces: Seq<Seq<u8>>)
    ensures
        absorbed(h.push(Op::Reset) + processes(pieces)) == pieces.flatten(),
        absorbed(processes(pieces)) == pieces.flatten(),
    decreases pieces.len(),
{
    if pieces.len() == 0 {
        assert(h.push(Op::Reset) + processes(pieces) =~= h.push(Op::Reset));
        assert(processes(pieces) =~= Seq::<Op>::empty());
    } else {
        let init = pieces.drop_last();
        lemma_absorbed_processes(h, init);
        assert((h.push(Op::Reset) + processes(pieces)).drop_last() =~= h.push(Op::Reset)
            + processes(init));
        assert(processes(pieces).drop_last() =~= processes(init));
        init.lemma_flatten_push(pieces.last());
        assert(init.push(pieces.last()) =~= pieces);
    }
}

/// `k` more reads of one byte each cover `k` more bytes of the stream.
pub proof fn lemma_total_ones(lens: Seq<nat>, k: nat)
    ensures
        total(lens + ones(k)) == total(lens) + k,
    decreases k,
{
    if k > 0 {
        lemma_total_ones(lens, (k - 1) as nat);
        assert((lens + ones(k)).drop_last() =~= lens + ones((k - 1) as nat));
    }
}

} // verus!
