//! Conformance checks that drive a hasher through several feeding
//! strategies and compare each result with an expected output.
use vstd::prelude::*;

use crate::feed::{
    byte_pieces, bytes_eq, bytewise_output, feed_bytewise, feed_halving, halving_pieces,
    lemma_byte_pieces, lemma_halving_pieces, lemma_read_bytewise, read_bytewise,
};
use crate::model::{absorbed, lemma_absorbed_processes, processes, zeros};
use crate::{
    fixed_conforming, variable_conforming, xof_conforming, Digest, ExtendableOutput, FixedOutput,
    Input, Op, Reset, VariableOutput, XofReader,
};

verus! {

/// History of the first strategy: the whole message in one call.
pub open spec fn whole_history(x: Seq<u8>) -> Seq<Op> {
    seq![Op::Process(x)]
}

/// History of the second strategy: the whole message, a reset, and the
/// whole message again.
pub open spec fn again_history(x: Seq<u8>) -> Seq<Op> {
    whole_history(x).push(Op::Reset).push(Op::Process(x))
}

/// History of the third strategy: the halving pieces of the message.
pub open spec fn halving_history(x: Seq<u8>) -> Seq<Op> {
    processes(halving_pieces(x))
}

/// History of the fourth strategy: the halving pieces, a reset, and the
/// message one byte per call.
pub open spec fn bytewise_history(x: Seq<u8>) -> Seq<Op> {
    halving_history(x).push(Op::Reset) + processes(byte_pieces(x))
}

/// Every strategy history absorbs the whole message.
proof fn lemma_strategy_histories(x: Seq<u8>)
    ensures
        absorbed(whole_history(x)) == x,
        absorbed(again_history(x)) == x,
        absorbed(halving_history(x)) == x,
        absorbed(bytewise_history(x)) == x,
        absorbed(halving_history(x).push(Op::Reset).push(Op::Process(x))) == x,
{
    seq![x].lemma_flatten_one_element();
    assert(processes(seq![x]) =~= whole_history(x));
    lemma_absorbed_processes(Seq::empty(), seq![x]);
    lemma_absorbed_processes(whole_history(x), seq![x]);
    assert(whole_history(x).push(Op::Reset) + processes(seq![x]) =~= again_history(x));
    lemma_halving_pieces(x);
    lemma_absorbed_processes(Seq::empty(), halving_pieces(x));
    lemma_byte_pieces(x);
    lemma_absorbed_processes(halving_history(x), byte_pieces(x));
    lemma_absorbed_processes(halving_history(x), seq![x]);
    assert(halving_history(x).push(Op::Reset) + processes(seq![x]) =~= halving_history(x).push(
        Op::Reset,
    ).push(Op::Process(x)));
}

/// The outcome of `digest_test`: the first strategy, in order, whose result
/// differs from `output`, or `None`.
pub open spec fn digest_verdict<D: FixedOutput>(input: Seq<u8>, output: Seq<u8>) -> Option<
    &'static str,
> {
    if D::result_of(whole_history(input)) != output {
        Some("whole message")
    } else if D::result_of(again_history(input)) != output {
        Some("whole message after reset")
    } else if D::result_of(halving_history(input)) != output {
        Some("message in pieces")
    } else if D::result_of(bytewise_history(input)) != output {
        Some("message byte-by-byte")
    } else {
        None
    }
}

/// For a correct hasher only the first strategy can be the first to fail.
pub proof fn lemma_digest_verdict<D: FixedOutput>(input: Seq<u8>, output: Seq<u8>)
    requires
        fixed_conforming::<D>(),
    ensures
        digest_verdict::<D>(input, output) == if D::fixed_spec(input) == output {
            None::<&'static str>
        } else {
            Some("whole message")
        },
{
    lemma_strategy_histories(input);
    assert(D::result_of(whole_history(input)) == D::fixed_spec(input));
    assert(D::result_of(again_history(input)) == D::fixed_spec(input));
    assert(D::result_of(halving_history(input)) == D::fixed_spec(input));
    assert(D::result_of(bytewise_history(input)) == D::fixed_spec(input));
}

/// Check a fixed-output hasher against one vector. Returns the name of the
/// first feeding strategy whose result differs from `output`, or `None`
/// when all of them give `output`. The strategies, in order: the whole
/// message, the whole message again after a reset, the halving pieces on
/// a new instance, and, after a reset of that one, one byte per call.
pub fn digest_test<D: Digest>(input: &[u8], output: &[u8]) -> (r: Option<&'static str>)
    ensures
        r == digest_verdict::<D>(input@, output@),
{
    let mut hasher = D::new();
    // the message all at once
    hasher.input(input);
    proof {
        assert(hasher.history() =~= whole_history(input@));
    }
    let res = hasher.result_reset();
    if !bytes_eq(res.as_slice(), output) {
        return Some("whole message");
    }
    // the same message again, after the reset
    hasher.input(input);
    let res = hasher.result();
    if !bytes_eq(res.as_slice(), output) {
        return Some("whole message after reset");
    }
    // the message in pieces of decreasing size
    let mut hasher = D::new();
    feed_halving(&mut hasher, input);
    proof {
        assert(hasher.history() =~= halving_history(input@));
    }
    let res = hasher.result_reset();
    if !bytes_eq(res.as_slice(), output) {
        return Some("message in pieces");
    }
    // the message byte by byte
    feed_bytewise(&mut hasher, input);
    let res = hasher.result();
    if !bytes_eq(res.as_slice(), output) {
        return Some("message byte-by-byte");
    }
    None
}

/// The first `n` bytes of the output stream of `D` for a message, as a
/// correct hasher gives them.
pub open spec fn xof_prefix<D: ExtendableOutput>(msg: Seq<u8>, n: nat) -> Seq<u8> {
    Seq::new(n, |i: int| D::xof_spec(msg, i as nat))
}

/// The outcome of `xof_test`: the first strategy, in order, whose bytes
/// differ from `output`, or `None`. Every read is into a new zeroed buffer.
pub open spec fn xof_verdict<D: ExtendableOutput>(input: Seq<u8>, output: Seq<u8>) -> Option<
    &'static str,
> {
    let n = output.len();
    if D::Reader::output_of(whole_history(input), Seq::empty(), zeros(n)) != output {
        Some("whole message")
    } else if D::Reader::output_of(again_history(input), Seq::empty(), zeros(n)) != output {
        Some("whole message after reset")
    } else if D::Reader::output_of(halving_history(input), Seq::empty(), zeros(n)) != output {
        Some("message in pieces")
    } else if bytewise_output::<D::Reader>(
        halving_history(input).push(Op::Reset).push(Op::Process(input)),
        Seq::empty(),
        n,
    ) != output {
        Some("reader byte-by-byte")
    } else {
        None
    }
}

/// For a correct hasher only the first strategy can be the first to fail.
pub proof fn lemma_xof_verdict<D: ExtendableOutput>(input: Seq<u8>, output: Seq<u8>)
    requires
        xof_conforming::<D>(),
    ensures
        xof_verdict::<D>(input, output) == if xof_prefix::<D>(input, output.len()) == output {
            None::<&'static str>
        } else {
            Some("whole message")
        },
{
    let n = output.len();
    let e = Seq::<nat>::empty();
    let last = halving_history(input).push(Op::Reset).push(Op::Process(input));
    lemma_strategy_histories(input);
    lemma_read_bytewise::<D>(last, e, n);
    assert(D::Reader::output_of(whole_history(input), e, zeros(n)) =~= xof_prefix::<D>(input, n));
    assert(D::Reader::output_of(again_history(input), e, zeros(n)) =~= xof_prefix::<D>(input, n));
    assert(D::Reader::output_of(halving_history(input), e, zeros(n)) =~= xof_prefix::<D>(
        input,
        n,
    ));
    assert(D::Reader::output_of(last, e, zeros(n)) =~= xof_prefix::<D>(input, n));
}

/// Read `n` bytes from a reader into a new zeroed buffer, in one call.
fn read_fresh<R: XofReader>(reader: &mut R, n: usize) -> (r: Vec<u8>)
    ensures
        r@ == R::output_of(old(reader).origin(), old(reader).read_lens(), zeros(n as nat)),
{
    let mut buf: Vec<u8> = vec![0u8; n];
    proof {
        assert(buf@ =~= zeros(n as nat));
    }
    reader.read(buf.as_mut_slice());
    buf
}

/// Check an extendable-output hasher against one vector: the first
/// `output.len()` bytes of its stream are compared with `output`. Returns
/// the name of the first strategy that differs, or `None`. The strategies,
/// in order: the whole message read in one call, the same after a reset,
/// the halving pieces on a new instance read in one call, and, after a
/// reset of that one, the whole message read one byte per call from a
/// single reader.
pub fn xof_test<D: ExtendableOutput + Reset>(input: &[u8], output: &[u8]) -> (r: Option<
    &'static str,
>)
    ensures
        r == xof_verdict::<D>(input@, output@),
{
    let n = output.len();
    let mut hasher = D::init();
    // the message all at once
    hasher.process(input);
    proof {
        assert(hasher.history() =~= whole_history(input@));
    }
    let mut reader = hasher.xof_result();
    let out = read_fresh(&mut reader, n);
    if !bytes_eq(out.as_slice(), output) {
        return Some("whole message");
    }
    // the same message again, after the reset
    hasher.process(input);
    let mut reader = hasher.xof_result();
    let out = read_fresh(&mut reader, n);
    if !bytes_eq(out.as_slice(), output) {
        return Some("whole message after reset");
    }
    // the message in pieces of decreasing size
    let mut hasher = D::init();
    feed_halving(&mut hasher, input);
    proof {
        assert(hasher.history() =~= halving_history(input@));
    }
    let mut reader = hasher.xof_result();
    let out = read_fresh(&mut reader, n);
    if !bytes_eq(out.as_slice(), output) {
        return Some("message in pieces");
    }
    // the stream read byte by byte from one reader
    hasher.process(input);
    let mut reader = hasher.xof_result();
    let mut out: Vec<u8> = vec![0u8; n];
    read_bytewise(&mut reader, out.as_mut_slice());
    if !bytes_eq(out.as_slice(), output) {
        return Some("reader byte-by-byte");
    }
    None
}

/// The outcome of `variable_test`: an output size that the hasher cannot
/// be created with, else the first strategy, in order, whose result
/// differs from `output`, or `None`. Every result is written into a new
/// zeroed buffer.
pub open spec fn variable_verdict<D: VariableOutput>(input: Seq<u8>, output: Seq<u8>) -> Option<
    &'static str,
> {
    let n = output.len();
    if n == 0 || !D::supports(n) {
        Some("unsupported output size")
    } else if D::variable_result_of(whole_history(input), n, zeros(n)) != output {
        Some("whole message")
    } else if D::variable_result_of(again_history(input), n, zeros(n)) != output {
        Some("whole message after reset")
    } else if D::variable_result_of(halving_history(input), n, zeros(n)) != output {
        Some("message in pieces")
    } else if D::variable_result_of(bytewise_history(input), n, zeros(n)) != output {
        Some("message byte-by-byte")
    } else {
        None
    }
}

/// For a correct hasher only the first strategy can be the first to fail,
/// once the size is supported.
pub proof fn lemma_variable_verdict<D: VariableOutput>(input: Seq<u8>, output: Seq<u8>)
    requires
        variable_conforming::<D>(),
    ensures
        variable_verdict::<D>(input, output) == if output.len() == 0 || !D::supports(
            output.len(),
        ) {
            Some("unsupported output size")
        } else if D::variable_spec(input, output.len()) == output {
            None::<&'static str>
        } else {
            Some("whole message")
        },
{
    let n = output.len();
    lemma_strategy_histories(input);
    assert(D::variable_result_of(whole_history(input), n, zeros(n)) == D::variable_spec(input, n));
    assert(D::variable_result_of(again_history(input), n, zeros(n)) == D::variable_spec(input, n));
    assert(D::variable_result_of(halving_history(input), n, zeros(n)) == D::variable_spec(
        input,
        n,
    ));
    assert(D::variable_result_of(bytewise_history(input), n, zeros(n)) == D::variable_spec(
        input,
        n,
    ));
}

/// Check a variable-output hasher against one vector, creating it with
/// `output.len()` as its output size. Returns the name of the first
/// strategy that differs from `output`, or `None`; a size that the hasher
/// does not support is reported as a failure too. The strategies are those
/// of `digest_test`.
pub fn variable_test<D: VariableOutput>(input: &[u8], output: &[u8]) -> (r: Option<&'static str>)
    ensures
        r == variable_verdict::<D>(input@, output@),
{
    let n = output.len();
    let mut hasher = match D::new(n) {
        Ok(h) => h,
        Err(_) => {
            return Some("unsupported output size");
        },
    };
    // the message all at once
    hasher.process(input);
    proof {
        assert(hasher.history() =~= whole_history(input@));
    }
    let mut buf: Vec<u8> = vec![0u8; n];
    proof {
        assert(buf@ =~= zeros(n as nat));
    }
    hasher.variable_result_reset(buf.as_mut_slice());
    if !bytes_eq(buf.as_slice(), output) {
        return Some("whole message");
    }
    // the same message again, after the reset
    hasher.process(input);
    let mut buf: Vec<u8> = vec![0u8; n];
    proof {
        assert(buf@ =~= zeros(n as nat));
    }
    hasher.variable_result(buf.as_mut_slice());
    if !bytes_eq(buf.as_slice(), output) {
        return Some("whole message after reset");
    }
    // the message in pieces of decreasing size
    let mut hasher = D::new(n).unwrap();
    feed_halving(&mut hasher, input);
    proof {
        assert(hasher.history() =~= halving_history(input@));
    }
    let mut buf: Vec<u8> = vec![0u8; n];
    proof {
        assert(buf@ =~= zeros(n as nat));
    }
    hasher.variable_result_reset(buf.as_mut_slice());
    if !bytes_eq(buf.as_slice(), output) {
        return Some("message in pieces");
    }
    // the message byte by byte
    feed_bytewise(&mut hasher, input);
    let mut buf: Vec<u8> = vec![0u8; n];
    proof {
        assert(buf@ =~= zeros(n as nat));
    }
    hasher.variable_result(buf.as_mut_slice());
    if !bytes_eq(buf.as_slice(), output) {
        return Some("message byte-by-byte");
    }
    None
}

/// Number of bytes in the large-input check: fifty thousand calls of ten
/// bytes, then one call of half a million.
pub const LARGE_INPUT_LEN: usize = 1_000_000;

/// `n` copies of the byte `b`.
pub open spec fn repeated(b: u8, n: nat) -> Seq<u8> {
    Seq::new(n, |_i: int| b)
}

/// The pieces of the large-input check: fifty thousand pieces of ten bytes
/// `a`, then one piece of 500,000.
pub open spec fn large_input_pieces() -> Seq<Seq<u8>> {
    Seq::new(50_000, |_k: int| repeated(0x61, 10)).push(repeated(0x61, 500_000))
}

/// The large-input pieces make up a million bytes `a`.
pub proof fn lemma_large_input_pieces()
    ensures
        large_input_pieces().flatten() == repeated(0x61, LARGE_INPUT_LEN as nat),
{
    let tens = Seq::new(50_000, |_k: int| repeated(0x61, 10));
    assert forall|k: nat| k <= 50_000 implies #[trigger] tens.take(k as int).flatten() == repeated(
        0x61,
        10 * k,
    ) by {
        lemma_tens_flatten(k);
    }
    assert(tens.take(50_000) =~= tens);
    tens.lemma_flatten_push(repeated(0x61, 500_000));
    assert(repeated(0x61, 500_000) + repeated(0x61, 500_000) =~= repeated(
        0x61,
        LARGE_INPUT_LEN as nat,
    ));
}

proof fn lemma_tens_flatten(k: nat)
    requires
        k <= 50_000,
    ensures
        Seq::new(50_000, |_k: int| repeated(0x61, 10)).take(k as int).flatten() == repeated(
            0x61,
            10 * k,
        ),
    decreases k,
{
    let tens = Seq::new(50_000, |_k: int| repeated(0x61, 10));
    if k == 0 {
        assert(tens.take(0) =~= Seq::<Seq<u8>>::empty());
        assert(repeated(0x61, 0) =~= Seq::<u8>::empty());
    } else {
        lemma_tens_flatten((k - 1) as nat);
        assert(tens.take(k as int) =~= tens.take(k - 1).push(repeated(0x61, 10)));
        tens.take(k - 1).lemma_flatten_push(repeated(0x61, 10));
        assert(repeated(0x61, 10 * (k - 1) as nat) + repeated(0x61, 10) =~= repeated(
            0x61,
            10 * k,
        ));
    }
}

/// Feed the large input to a hasher: fifty thousand calls of ten bytes `a`,
/// then one call of 500,000.
pub fn feed_large_input<D: Input>(sh: &mut D)
    ensures
        final(sh).history() == old(sh).history() + processes(large_input_pieces()),
{
    let ten: Vec<u8> = vec![0x61u8; 10];
    let ghost tens = Seq::new(50_000, |_k: int| repeated(0x61, 10));
    let mut k: usize = 0;
    proof {
        assert(ten@ =~= repeated(0x61, 10));
        assert(old(sh).history() + processes(tens.take(0)) =~= old(sh).history());
    }
    while k < 50_000
        invariant
            k <= 50_000,
            ten@ == repeated(0x61, 10),
            tens == Seq::new(50_000, |_k: int| repeated(0x61, 10)),
            sh.history() == old(sh).history() + processes(tens.take(k as int)),
        decreases 50_000 - k,
    {
        sh.process(ten.as_slice());
        proof {
            assert(processes(tens.take(k as int)).push(Op::Process(repeated(0x61, 10)))
                =~= processes(tens.take(k + 1)));
        }
        k = k + 1;
    }
    let big: Vec<u8> = vec![0x61u8; 500_000];
    sh.process(big.as_slice());
    proof {
        assert(big@ =~= repeated(0x61, 500_000));
        assert(tens.take(50_000) =~= tens);
        assert(processes(tens).push(Op::Process(repeated(0x61, 500_000))) =~= processes(
            large_input_pieces(),
        ));
    }
}

/// Feed a million bytes `a` to a fresh hasher, as fifty thousand calls of ten
/// bytes followed by one call of 500,000 bytes, and compare the result with
/// `expected`. Catches length counters that overflow on large inputs.
pub fn one_million_a<D: Digest>(expected: &[u8]) -> (r: bool)
    ensures
        r == (D::result_of(processes(large_input_pieces())) == expected@),
{
    let mut sh = D::new();
    feed_large_input(&mut sh);
    proof {
        assert(sh.history() =~= processes(large_input_pieces()));
    }
    let out = sh.result();
    bytes_eq(out.as_slice(), expected)
}

/// For a correct hasher, the large-input check compares the result for a
/// million bytes `a`.
pub proof fn lemma_one_million_a<D: FixedOutput>()
    requires
        fixed_conforming::<D>(),
    ensures
        D::result_of(processes(large_input_pieces())) == D::fixed_spec(
            repeated(0x61, LARGE_INPUT_LEN as nat),
        ),
{
    lemma_large_input_pieces();
    lemma_absorbed_processes(Seq::empty(), large_input_pieces());
}

} // verus!
