use digest_traits::dev::{digest_test, feed_large_input, one_million_a};
use digest_traits::feed::{bytes_eq, feed_bytewise, feed_chunks, feed_halving};
use digest_traits::vectors::{run_digest_vectors, HarnessError, IndexRecord, VectorFailure};
use digest_traits::{BlockInput, Digest, FixedOutput, Input, Reset};

fn hex(s: &str) -> Vec<u8> {
    (0..s.len() / 2)
        .map(|i| u8::from_str_radix(&s[2 * i..2 * i + 2], 16).unwrap())
        .collect()
}

const ABC: &str = "ba7816bf8f01cfea414140de5dae2223b00361a396177a9cb410ff61f20015ad";
const EMPTY: &str = "e3b0c44298fc1c149afbf4c8996fb92427ae41e4649b934ca495991b7852b855";
const TWO_BLOCKS: &str = "248d6a61d20638b8e5c026930c3e6039a33ce45964ff2167f6ecedd419db06c1";
const TWO_BLOCKS_MSG: &[u8] = b"abcdbcdecdefdefgefghfghighijhijkijkljklmklmnlmnomnopnopq";
const MILLION_A: &str = "cdc76e5c9914fb9281a1c7e284d73e67f1809a48a497200e046d39ccc7112cd0";

/// SHA-256 through the library's capability traits.
#[derive(Clone)]
struct Sha256(sha2::Sha256);

impl Input for Sha256 {
    fn process(&mut self, buf: &[u8]) {
        sha2::Digest::update(&mut self.0, buf);
    }
}

impl Reset for Sha256 {
    fn reset(&mut self) -> Self {
        std::mem::replace(self, Self::init())
    }

    fn init() -> Self {
        Sha256(sha2::Sha256::default())
    }
}

impl FixedOutput for Sha256 {
    fn fixed_output_size() -> usize {
        32
    }

    fn fixed_result(self) -> Vec<u8> {
        sha2::Digest::finalize(self.0).to_vec()
    }
}

impl BlockInput for Sha256 {
    fn block_size() -> usize {
        64
    }
}

/// A faulty hasher whose `fixed_result_reset` keeps the absorbed state.
struct StickySha(sha2::Sha256);

impl Input for StickySha {
    fn process(&mut self, buf: &[u8]) {
        sha2::Digest::update(&mut self.0, buf);
    }
}

impl Reset for StickySha {
    fn reset(&mut self) -> Self {
        std::mem::replace(self, Self::init())
    }

    fn init() -> Self {
        StickySha(sha2::Sha256::default())
    }
}

impl FixedOutput for StickySha {
    fn fixed_output_size() -> usize {
        32
    }

    fn fixed_result(self) -> Vec<u8> {
        sha2::Digest::finalize(self.0).to_vec()
    }

    fn fixed_result_reset(&mut self) -> Vec<u8> {
        sha2::Digest::finalize(self.0.clone()).to_vec()
    }
}

/// A faulty hasher that drops everything after its second `process` call.
struct TwoCallSha {
    inner: sha2::Sha256,
    calls: usize,
}

impl Input for TwoCallSha {
    fn process(&mut self, buf: &[u8]) {
        if self.calls < 2 {
            sha2::Digest::update(&mut self.inner, buf);
        }
        self.calls += 1;
    }
}

impl Reset for TwoCallSha {
    fn reset(&mut self) -> Self {
        std::mem::replace(self, Self::init())
    }

    fn init() -> Self {
        TwoCallSha { inner: sha2::Sha256::default(), calls: 0 }
    }
}

impl FixedOutput for TwoCallSha {
    fn fixed_output_size() -> usize {
        32
    }

    fn fixed_result(self) -> Vec<u8> {
        sha2::Digest::finalize(self.inner).to_vec()
    }
}

/// A faulty hasher that drops every call of exactly one byte.
struct NoSingleBytes(sha2::Sha256);

impl Input for NoSingleBytes {
    fn process(&mut self, buf: &[u8]) {
        if buf.len() != 1 {
            sha2::Digest::update(&mut self.0, buf);
        }
    }
}

impl Reset for NoSingleBytes {
    fn reset(&mut self) -> Self {
        std::mem::replace(self, Self::init())
    }

    fn init() -> Self {
        NoSingleBytes(sha2::Sha256::default())
    }
}

impl FixedOutput for NoSingleBytes {
    fn fixed_output_size() -> usize {
        32
    }

    fn fixed_result(self) -> Vec<u8> {
        sha2::Digest::finalize(self.0).to_vec()
    }
}

#[test]
fn digest_one_shot_abc() {
    assert_eq!(Sha256::digest(b"abc"), hex(ABC));
    assert_eq!(Sha256::digest(b""), hex(EMPTY));
    assert_eq!(Sha256::digest(TWO_BLOCKS_MSG), hex(TWO_BLOCKS));
}

#[test]
fn digest_output_and_block_size() {
    assert_eq!(<Sha256 as Digest>::output_size(), 32);
    assert_eq!(Sha256::block_size(), 64);
}

#[test]
fn digest_streaming_input() {
    let mut h = Sha256::new();
    h.input(b"a");
    h.input(b"");
    h.input(b"bc");
    assert_eq!(h.result(), hex(ABC));
}

#[test]
fn result_reset_then_hash_matches_fresh() {
    let mut h = Sha256::new();
    h.input(b"something else entirely");
    let _ = h.result_reset();
    h.input(b"abc");
    assert_eq!(h.result(), Sha256::digest(b"abc"));
}

#[test]
fn reset_hands_back_previous_state() {
    let mut h = Sha256::init();
    h.process(b"abc");
    let before = h.reset();
    assert_eq!(before.fixed_result(), hex(ABC));
    assert_eq!(h.fixed_result(), hex(EMPTY));
}

#[test]
fn digest_test_abc_passes_all_strategies() {
    assert_eq!(digest_test::<Sha256>(b"abc", &hex(ABC)), None);
    assert_eq!(digest_test::<Sha256>(b"", &hex(EMPTY)), None);
    assert_eq!(digest_test::<Sha256>(TWO_BLOCKS_MSG, &hex(TWO_BLOCKS)), None);
}

#[test]
fn digest_test_wrong_output_fails_whole_message() {
    let mut wrong = hex(ABC);
    wrong[31] ^= 1;
    assert_eq!(digest_test::<Sha256>(b"abc", &wrong), Some("whole message"));
    assert_eq!(digest_test::<Sha256>(b"abc", &hex(ABC)[..31]), Some("whole message"));
}

#[test]
fn digest_test_catches_missing_reset() {
    assert_eq!(
        digest_test::<StickySha>(b"abc", &hex(ABC)),
        Some("whole message after reset")
    );
}

#[test]
fn digest_test_catches_single_byte_loss_in_pieces() {
    // "abc" in halving pieces is "ab" then "c"
    assert_eq!(
        digest_test::<NoSingleBytes>(b"abc", &hex(ABC)),
        Some("message in pieces")
    );
}

#[test]
fn digest_test_catches_loss_byte_by_byte() {
    assert_eq!(
        digest_test::<TwoCallSha>(b"abc", &hex(ABC)),
        Some("message byte-by-byte")
    );
}

#[test]
fn one_million_a_sha256() {
    assert!(one_million_a::<Sha256>(&hex(MILLION_A)));
    assert!(!one_million_a::<Sha256>(&hex(ABC)));
}

#[test]
fn halving_pieces_absorb_whole_message() {
    let mut h = Sha256::init();
    feed_halving(&mut h, TWO_BLOCKS_MSG);
    assert_eq!(h.fixed_result(), hex(TWO_BLOCKS));
    let mut h = Sha256::init();
    feed_halving(&mut h, b"");
    assert_eq!(h.fixed_result(), hex(EMPTY));
}

#[test]
fn halving_piece_sizes() {
    // 7 bytes go in as 4, 2, 1: NoSingleBytes drops only the last piece
    let mut h = NoSingleBytes::init();
    feed_halving(&mut h, b"abcdefg");
    assert_eq!(h.fixed_result(), Sha256::digest(b"abcdef"));
}

#[test]
fn bytewise_absorbs_whole_message() {
    let mut h = Sha256::init();
    feed_bytewise(&mut h, TWO_BLOCKS_MSG);
    assert_eq!(h.fixed_result(), hex(TWO_BLOCKS));
}

#[test]
fn any_partition_gives_same_digest() {
    let msg = TWO_BLOCKS_MSG;
    let partitions: Vec<Vec<usize>> = vec![
        vec![msg.len()],
        vec![1, 55],
        vec![55, 0, 1],
        vec![10, 20, 26],
        vec![3; 0].into_iter().chain(std::iter::repeat(7).take(8)).collect(),
    ];
    for sizes in partitions {
        let mut chunks: Vec<Vec<u8>> = Vec::new();
        let mut at = 0;
        for s in sizes {
            chunks.push(msg[at..at + s].to_vec());
            at += s;
        }
        assert_eq!(at, msg.len());
        let mut h = Sha256::init();
        feed_chunks(&mut h, &chunks);
        assert_eq!(h.fixed_result(), hex(TWO_BLOCKS));
    }
}

#[test]
fn bytes_eq_compares_contents_and_length() {
    assert!(bytes_eq(b"abc", b"abc"));
    assert!(bytes_eq(b"", b""));
    assert!(!bytes_eq(b"abc", b"abd"));
    assert!(!bytes_eq(b"abc", b"ab"));
}

fn record(fields: [u16; 4]) -> Vec<u8> {
    fields.iter().flat_map(|f| f.to_le_bytes()).collect()
}

#[test]
fn vectors_abc_record_passes() {
    let index = record([0, 3, 0, 32]);
    assert_eq!(run_digest_vectors::<Sha256>(b"abc", &hex(ABC), &index), Ok(()));
}

#[test]
fn vectors_several_records_pass() {
    let mut inputs = b"abc".to_vec();
    inputs.extend_from_slice(TWO_BLOCKS_MSG);
    let mut outputs = hex(ABC);
    outputs.extend(hex(EMPTY));
    outputs.extend(hex(TWO_BLOCKS));
    let mut index = record([0, 3, 0, 32]);
    index.extend(record([3, 3, 32, 64]));
    index.extend(record([3, 59, 64, 96]));
    assert_eq!(run_digest_vectors::<Sha256>(&inputs, &outputs, &index), Ok(()));
}

#[test]
fn vectors_report_every_failing_record() {
    let mut outputs = hex(ABC);
    outputs.extend(hex(EMPTY));
    let mut index = record([0, 3, 32, 64]);
    index.extend(record([0, 3, 0, 32]));
    index.extend(record([0, 0, 0, 32]));
    let r = run_digest_vectors::<Sha256>(b"abc", &outputs, &index);
    assert_eq!(
        r,
        Err(HarnessError::Mismatch {
            failures: vec![
                VectorFailure {
                    record: 0,
                    strategy: "whole message",
                    spans: IndexRecord { input_start: 0, input_end: 3, output_start: 32, output_end: 64 },
                },
                VectorFailure {
                    record: 2,
                    strategy: "whole message",
                    spans: IndexRecord { input_start: 0, input_end: 0, output_start: 0, output_end: 32 },
                },
            ]
        })
    );
}

#[test]
fn vectors_report_strategy_of_faulty_hasher() {
    let index = record([0, 3, 0, 32]);
    let r = run_digest_vectors::<StickySha>(b"abc", &hex(ABC), &index);
    match r {
        Err(HarnessError::Mismatch { failures }) => {
            assert_eq!(failures.len(), 1);
            assert_eq!(failures[0].record, 0);
            assert_eq!(failures[0].strategy, "whole message after reset");
        }
        other => panic!("unexpected outcome {:?}", other),
    }
}

#[test]
fn vectors_malformed_index_rejected_first() {
    // a record that would fail, cut short by one byte: nothing is checked
    let mut index = record([0, 3, 0, 32]);
    index.pop();
    assert_eq!(
        run_digest_vectors::<Sha256>(b"abc", &hex(EMPTY), &index),
        Err(HarnessError::MalformedIndex { len: 7 })
    );
    assert_eq!(
        run_digest_vectors::<Sha256>(b"abc", &hex(ABC), &[0u8; 9]),
        Err(HarnessError::MalformedIndex { len: 9 })
    );
}

#[test]
fn vectors_out_of_range_record() {
    let mut index = record([0, 3, 0, 32]);
    index.extend(record([0, 4, 0, 32]));
    assert_eq!(
        run_digest_vectors::<Sha256>(b"abc", &hex(ABC), &index),
        Err(HarnessError::OutOfRange { record: 1 })
    );
    let index = record([2, 1, 0, 32]);
    assert_eq!(
        run_digest_vectors::<Sha256>(b"abc", &hex(ABC), &index),
        Err(HarnessError::OutOfRange { record: 0 })
    );
    let index = record([0, 3, 0, 33]);
    assert_eq!(
        run_digest_vectors::<Sha256>(b"abc", &hex(ABC), &index),
        Err(HarnessError::OutOfRange { record: 0 })
    );
}

#[test]
fn vectors_empty_index_passes() {
    assert_eq!(run_digest_vectors::<Sha256>(b"", b"", b""), Ok(()));
}

/// Records the length of every `process` call.
struct Recorder(Vec<usize>);

impl Input for Recorder {
    fn process(&mut self, buf: &[u8]) {
        self.0.push(buf.len());
    }
}

#[test]
fn halving_calls_take_larger_half_of_rest() {
    let mut r = Recorder(Vec::new());
    feed_halving(&mut r, &[0u8; 7]);
    assert_eq!(r.0, vec![4, 2, 1]);
    let mut r = Recorder(Vec::new());
    feed_halving(&mut r, &[0u8; 100]);
    assert_eq!(r.0, vec![50, 25, 13, 6, 3, 2, 1]);
    let mut r = Recorder(Vec::new());
    feed_halving(&mut r, b"");
    assert!(r.0.is_empty());
}

#[test]
fn bytewise_calls_are_single_bytes() {
    let mut r = Recorder(Vec::new());
    feed_bytewise(&mut r, b"abcde");
    assert_eq!(r.0, vec![1; 5]);
}

#[test]
fn chunk_calls_follow_chunks() {
    let mut r = Recorder(Vec::new());
    feed_chunks(&mut r, &vec![vec![1u8, 2], vec![], vec![3u8]]);
    assert_eq!(r.0, vec![2, 0, 1]);
}

#[test]
fn large_input_call_pattern() {
    let mut r = Recorder(Vec::new());
    feed_large_input(&mut r);
    assert_eq!(r.0.len(), 50_001);
    assert!(r.0[..50_000].iter().all(|&n| n == 10));
    assert_eq!(r.0[50_000], 500_000);
}
