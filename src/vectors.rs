//! Recorded test vectors: a flat index of fixed-width records that locate
//! each vector's input and expected output in two shared byte buffers, and
//! runners that check a hasher against every vector of an index.
use vstd::prelude::*;

use crate::dev::{
    digest_test, digest_verdict, variable_test, variable_verdict, xof_test, xof_verdict,
};
use crate::{Digest, ExtendableOutput, Reset, VariableOutput};

verus! {

/// Bytes in one index record: four little-endian 16-bit offsets.
pub const RECORD_LEN: usize = 8;

/// One index record: half-open byte ranges of a vector's input in the
/// inputs buffer and of its expected output in the outputs buffer.
#[derive(Clone, Copy, Debug, PartialEq, Eq, Structural)]
pub struct IndexRecord {
    pub input_start: u16,
    pub input_end: u16,
    pub output_start: u16,
    pub output_end: u16,
}

/// One vector on which a hasher failed.
#[derive(Clone, Copy, Debug, PartialEq, Eq)]
pub struct VectorFailure {
    /// Position of the vector's record in the index.
    pub record: usize,
    /// Name of the first feeding strategy whose result differed.
    pub strategy: &'static str,
    /// The record itself, which locates the input and expected output.
    pub spans: IndexRecord,
}

/// Why a run over recorded vectors did not pass.
#[derive(Debug, PartialEq, Eq)]
pub enum HarnessError {
    /// The index length is not a multiple of the record length; nothing
    /// was checked.
    MalformedIndex { len: usize },
    /// The record at this position reaches past its buffer, or its range
    /// ends before it starts; nothing was checked.
    OutOfRange { record: usize },
    /// Every vector was checked and these failed, in index order.
    Mismatch { failures: Vec<VectorFailure> },
}

/// The little-endian 16-bit integer whose low byte is at `at`.
pub open spec fn le_u16_at(b: Seq<u8>, at: int) -> u16 {
    (b[at] as int + 256 * (b[at + 1] as int)) as u16
}

/// Record `k` of an index.
pub open spec fn record_at(index: Seq<u8>, k: int) -> IndexRecord {
    IndexRecord {
        input_start: le_u16_at(index, 8 * k),
        input_end: le_u16_at(index, 8 * k + 2),
        output_start: le_u16_at(index, 8 * k + 4),
        output_end: le_u16_at(index, 8 * k + 6),
    }
}

/// All records of an index whose length is a multiple of the record length.
pub open spec fn records_of(index: Seq<u8>) -> Seq<IndexRecord> {
    Seq::new(index.len() / 8, |k: int| record_at(index, k))
}

/// Read the little-endian 16-bit integer whose low byte is at `at`.
fn read_u16_le(b: &[u8], at: usize) -> (r: u16)
    requires
        at + 1 < b@.len(),
    ensures
        r == le_u16_at(b@, at as int),
{
    b[at] as u16 + 256 * (b[at + 1] as u16)
}

/// Decode an index into its records. Fails, before anything else, when
/// the length is not a multiple of the record length.
pub fn decode_index(index: &[u8]) -> (r: Result<Vec<IndexRecord>, HarnessError>)
    ensures
        r is Ok <==> index@.len() % 8 == 0,
        r is Ok ==> r->Ok_0@ == records_of(index@),
        r is Err ==> r->Err_0 == (HarnessError::MalformedIndex { len: index@.len() as usize }),
{
    if index.len() % RECORD_LEN != 0 {
        return Err(HarnessError::MalformedIndex { len: index.len() });
    }
    let mut records: Vec<IndexRecord> = Vec::new();
    let mut at: usize = 0;
    let ghost mut k: int = 0;
    while at < index.len()
        invariant
            at == 8 * k,
            at <= index@.len(),
            index@.len() % 8 == 0,
            records@ == records_of(index@).subrange(0, k),
        decreases index@.len() - at,
    {
        let rec = IndexRecord {
            input_start: read_u16_le(index, at),
            input_end: read_u16_le(index, at + 2),
            output_start: read_u16_le(index, at + 4),
            output_end: read_u16_le(index, at + 6),
        };
        records.push(rec);
        proof {
            assert(records@ =~= records_of(index@).subrange(0, k + 1));
            k = k + 1;
        }
        at = at + RECORD_LEN;
    }
    proof {
        assert(records@ =~= records_of(index@));
    }
    Ok(records)
}

/// Whether both ranges of a record are well ordered and lie within their
/// buffers.
pub open spec fn spans_fit(r: IndexRecord, inputs_len: nat, outputs_len: nat) -> bool {
    &&& r.input_start <= r.input_end
    &&& r.input_end <= inputs_len
    &&& r.output_start <= r.output_end
    &&& r.output_end <= outputs_len
}

/// The input of the vector that a record locates.
pub open spec fn vector_input(inputs: Seq<u8>, r: IndexRecord) -> Seq<u8> {
    inputs.subrange(r.input_start as int, r.input_end as int)
}

/// The expected output of the vector that a record locates.
pub open spec fn vector_output(outputs: Seq<u8>, r: IndexRecord) -> Seq<u8> {
    outputs.subrange(r.output_start as int, r.output_end as int)
}

/// Whether the index decodes and every record fits its buffers.
pub open spec fn index_usable(inputs: Seq<u8>, outputs: Seq<u8>, index: Seq<u8>) -> bool {
    &&& index.len() % 8 == 0
    &&& forall|k: int|
        0 <= k < records_of(index).len() ==> spans_fit(
            #[trigger] records_of(index)[k],
            inputs.len(),
            outputs.len(),
        )
}

/// The error that an unusable index gives: a malformed length, else the
/// first record that does not fit.
pub open spec fn setup_error(
    inputs: Seq<u8>,
    outputs: Seq<u8>,
    index: Seq<u8>,
    e: HarnessError,
) -> bool {
    if index.len() % 8 != 0 {
        e == (HarnessError::MalformedIndex { len: index.len() as usize })
    } else {
        match e {
            HarnessError::OutOfRange { record } => {
                &&& record < records_of(index).len()
                &&& !spans_fit(records_of(index)[record as int], inputs.len(), outputs.len())
                &&& forall|j: int|
                    0 <= j < record ==> spans_fit(
                        #[trigger] records_of(index)[j],
                        inputs.len(),
                        outputs.len(),
                    )
            },
            _ => false,
        }
    }
}

/// The verdict of a per-vector check on the vector that `r` locates.
pub open spec fn verdict_on(
    inputs: Seq<u8>,
    outputs: Seq<u8>,
    verdict: spec_fn(Seq<u8>, Seq<u8>) -> Option<&'static str>,
    r: IndexRecord,
) -> Option<&'static str> {
    verdict(vector_input(inputs, r), vector_output(outputs, r))
}

/// Positions, among the first `n` records, of the vectors on which the
/// verdict is a failure, in order.
pub open spec fn mismatches(
    recs: Seq<IndexRecord>,
    inputs: Seq<u8>,
    outputs: Seq<u8>,
    verdict: spec_fn(Seq<u8>, Seq<u8>) -> Option<&'static str>,
    n: nat,
) -> Seq<int>
    decreases n,
{
    if n == 0 {
        Seq::empty()
    } else {
        let prev = mismatches(recs, inputs, outputs, verdict, (n - 1) as nat);
        if verdict_on(inputs, outputs, verdict, recs[n - 1]) is None {
            prev
        } else {
            prev.push(n - 1)
        }
    }
}

/// Whether `failures` names exactly the records at positions `m`, in order,
/// each with the strategy that its verdict names.
pub open spec fn reported(
    failures: Seq<VectorFailure>,
    recs: Seq<IndexRecord>,
    inputs: Seq<u8>,
    outputs: Seq<u8>,
    verdict: spec_fn(Seq<u8>, Seq<u8>) -> Option<&'static str>,
    m: Seq<int>,
) -> bool {
    &&& failures.len() == m.len()
    &&& forall|j: int|
        0 <= j < m.len() ==> {
            &&& (#[trigger] failures[j]).record == m[j]
            &&& failures[j].spans == recs[m[j]]
            &&& verdict_on(inputs, outputs, verdict, recs[m[j]]) == Some(failures[j].strategy)
        }
}

/// The outcome of checking every vector of an index, where `verdict` gives
/// the per-vector check's result for an input and an expected output: a
/// setup error, else success when no verdict is a failure, else every
/// failing vector in index order with the strategy its verdict names.
///
/// Every record is checked against its buffers before any vector is run,
/// so a record that does not fit is reported alone, as a setup error.
pub open spec fn run_outcome(
    r: Result<(), HarnessError>,
    inputs: Seq<u8>,
    outputs: Seq<u8>,
    index: Seq<u8>,
    verdict: spec_fn(Seq<u8>, Seq<u8>) -> Option<&'static str>,
) -> bool {
    if !index_usable(inputs, outputs, index) {
        r is Err && setup_error(inputs, outputs, index, r->Err_0)
    } else {
        let recs = records_of(index);
        let m = mismatches(recs, inputs, outputs, verdict, recs.len());
        if m.len() == 0 {
            r is Ok
        } else {
            match r {
                Err(HarnessError::Mismatch { failures }) => reported(
                    failures@,
                    recs,
                    inputs,
                    outputs,
                    verdict,
                    m,
                ),
                _ => false,
            }
        }
    }
}

/// Record the verdict on the vector at position `k`.
fn note_verdict(
    failures: &mut Vec<VectorFailure>,
    k: usize,
    rec: IndexRecord,
    result: Option<&'static str>,
    Ghost(recs): Ghost<Seq<IndexRecord>>,
    Ghost(inputs): Ghost<Seq<u8>>,
    Ghost(outputs): Ghost<Seq<u8>>,
    Ghost(verdict): Ghost<spec_fn(Seq<u8>, Seq<u8>) -> Option<&'static str>>,
)
    requires
        reported(old(failures)@, recs, inputs, outputs, verdict, mismatches(recs, inputs, outputs, verdict, k as nat)),
        k < recs.len(),
        recs[k as int] == rec,
        verdict_on(inputs, outputs, verdict, rec) == result,
    ensures
        reported(final(failures)@, recs, inputs, outputs, verdict, mismatches(recs, inputs, outputs, verdict, (k + 1) as nat)),
{
    let ghost before = failures@;
    match result {
        Some(name) => {
            failures.push(VectorFailure { record: k, strategy: name, spans: rec });
            proof {
                assert forall|j: int| 0 <= j < before.len() implies failures@[j] == before[j] by {}
            }
        },
        None => {},
    }
}

/// Decode the index and check that every record fits its buffers.
fn usable_records(inputs: &[u8], outputs: &[u8], index: &[u8]) -> (r: Result<
    Vec<IndexRecord>,
    HarnessError,
>)
    ensures
        r is Ok <==> index_usable(inputs@, outputs@, index@),
        r is Ok ==> r->Ok_0@ == records_of(index@),
        r is Err ==> setup_error(inputs@, outputs@, index@, r->Err_0),
{
    let records = match decode_index(index) {
        Ok(recs) => recs,
        Err(e) => {
            return Err(e);
        },
    };
    let mut k: usize = 0;
    while k < records.len()
        invariant
            k <= records@.len(),
            index@.len() % 8 == 0,
            records@ == records_of(index@),
            forall|j: int|
                0 <= j < k ==> spans_fit(#[trigger] records@[j], inputs@.len(), outputs@.len()),
        decreases records@.len() - k,
    {
        let rec = records[k];
        if !(rec.input_start <= rec.input_end && rec.input_end as usize <= inputs.len()
            && rec.output_start <= rec.output_end && rec.output_end as usize <= outputs.len()) {
            return Err(HarnessError::OutOfRange { record: k });
        }
        k = k + 1;
    }
    Ok(records)
}

/// Check a fixed-output hasher against every vector of an index.
pub fn run_digest_vectors<D: Digest>(inputs: &[u8], outputs: &[u8], index: &[u8]) -> (r: Result<
    (),
    HarnessError,
>)
    ensures
        run_outcome(r, inputs@, outputs@, index@, |i: Seq<u8>, o: Seq<u8>| digest_verdict::<D>(i, o)),
{
    let ghost verdict = |i: Seq<u8>, o: Seq<u8>| digest_verdict::<D>(i, o);
    let records = match usable_records(inputs, outputs, index) {
        Ok(recs) => recs,
        Err(e) => {
            return Err(e);
        },
    };
    let mut failures: Vec<VectorFailure> = Vec::new();
    let mut k: usize = 0;
    while k < records.len()
        invariant
            k <= records@.len(),
            records@ == records_of(index@),
            index_usable(inputs@, outputs@, index@),
            verdict == (|i: Seq<u8>, o: Seq<u8>| digest_verdict::<D>(i, o)),
            reported(
                failures@,
                records@,
                inputs@,
                outputs@,
                verdict,
                mismatches(records@, inputs@, outputs@, verdict, k as nat),
            ),
        decreases records@.len() - k,
    {
        let rec = records[k];
        proof {
            assert(spans_fit(records@[k as int], inputs@.len(), outputs@.len()));
        }
        let input = &inputs[rec.input_start as usize..rec.input_end as usize];
        let output = &outputs[rec.output_start as usize..rec.output_end as usize];
        let result = digest_test::<D>(input, output);
        note_verdict(
            &mut failures,
            k,
            rec,
            result,
            Ghost(records@),
            Ghost(inputs@),
            Ghost(outputs@),
            Ghost(verdict),
        );
        k = k + 1;
    }
    if failures.len() == 0 {
        Ok(())
    } else {
        Err(HarnessError::Mismatch { failures })
    }
}

/// Check an extendable-output hasher against every vector of an index;
/// each expected output is compared with that many bytes of the stream.
pub fn run_xof_vectors<D: ExtendableOutput + Reset>(inputs: &[u8], outputs: &[u8], index: &[u8]) -> (r: Result<
    (),
    HarnessError,
>)
    ensures
        run_outcome(r, inputs@, outputs@, index@, |i: Seq<u8>, o: Seq<u8>| xof_verdict::<D>(i, o)),
{
    let ghost verdict = |i: Seq<u8>, o: Seq<u8>| xof_verdict::<D>(i, o);
    let records = match usable_records(inputs, outputs, index) {
        Ok(recs) => recs,
        Err(e) => {
            return Err(e);
        },
    };
    let mut failures: Vec<VectorFailure> = Vec::new();
    let mut k: usize = 0;
    while k < records.len()
        invariant
            k <= records@.len(),
            records@ == records_of(index@),
            index_usable(inputs@, outputs@, index@),
            verdict == (|i: Seq<u8>, o: Seq<u8>| xof_verdict::<D>(i, o)),
            reported(
                failures@,
                records@,
                inputs@,
                outputs@,
                verdict,
                mismatches(records@, inputs@, outputs@, verdict, k as nat),
            ),
        decreases records@.len() - k,
    {
        let rec = records[k];
        proof {
            assert(spans_fit(records@[k as int], inputs@.len(), outputs@.len()));
        }
        let input = &inputs[rec.input_start as usize..rec.input_end as usize];
        let output = &outputs[rec.output_start as usize..rec.output_end as usize];
        let result = xof_test::<D>(input, output);
        note_verdict(
            &mut failures,
            k,
            rec,
            result,
            Ghost(records@),
            Ghost(inputs@),
            Ghost(outputs@),
            Ghost(verdict),
        );
        k = k + 1;
    }
    if failures.len() == 0 {
        Ok(())
    } else {
        Err(HarnessError::Mismatch { failures })
    }
}

/// Check a variable-output hasher against every vector of an index; for
/// each vector the hasher is created with the expected output's length.
pub fn run_variable_vectors<D: VariableOutput>(inputs: &[u8], outputs: &[u8], index: &[u8]) -> (r: Result<
    (),
    HarnessError,
>)
    ensures
        run_outcome(r, inputs@, outputs@, index@, |i: Seq<u8>, o: Seq<u8>| variable_verdict::<D>(i, o)),
{
    let ghost verdict = |i: Seq<u8>, o: Seq<u8>| variable_verdict::<D>(i, o);
    let records = match usable_records(inputs, outputs, index) {
        Ok(recs) => recs,
        Err(e) => {
            return Err(e);
        },
    };
    let mut failures: Vec<VectorFailure> = Vec::new();
    let mut k: usize = 0;
    while k < records.len()
        invariant
            k <= records@.len(),
            records@ == records_of(index@),
            index_usable(inputs@, outputs@, index@),
            verdict == (|i: Seq<u8>, o: Seq<u8>| variable_verdict::<D>(i, o)),
            reported(
                failures@,
                records@,
                inputs@,
                outputs@,
                verdict,
                mismatches(records@, inputs@, outputs@, verdict, k as nat),
            ),
        decreases records@.len() - k,
    {
        let rec = records[k];
        proof {
            assert(spans_fit(records@[k as int], inputs@.len(), outputs@.len()));
        }
        let input = &inputs[rec.input_start as usize..rec.input_end as usize];
        let output = &outputs[rec.output_start as usize..rec.output_end as usize];
        let result = variable_test::<D>(input, output);
        note_verdict(
            &mut failures,
            k,
            rec,
            result,
            Ghost(records@),
            Ghost(inputs@),
            Ghost(outputs@),
            Ghost(verdict),
        );
        k = k + 1;
    }
    if failures.len() == 0 {
        Ok(())
    } else {
        Err(HarnessError::Mismatch { failures })
    }
}

} // verus!
