//! The parquet storage backend.
//!
//! Parquet is the reference columnar format: it selects its own
//! per-column encoding, so no compression hint is attached.  The
//! encoder and decoder are outside collaborators; each is reached
//! through one trusted wrapper, and everything around the calls —
//! gathering rows, concatenating batches, error mapping — is verified.
//!
//! The written bytes are a function of the schema and column values
//! alone (the writer is configured with fixed properties and embeds no
//! time or machine state), which is what makes written sizes, and hence
//! compression ratios, reproducible across runs.

use vstd::prelude::*;
use arrow_array::{Array, ArrayRef, Int64Array, RecordBatch};
use parquet::arrow::arrow_reader::ParquetRecordBatchReaderBuilder;
use parquet::arrow::arrow_writer::ArrowWriter;
use parquet::basic::Compression;
use parquet::file::properties::WriterProperties;
use std::sync::Arc;
use crate::batch::{spec_cat_col, spec_gather, BatchModel, ColumnarBatch, concat_batches};
use crate::error::BenchError;

verus! {

/// The parquet file the encoder produces for a schema and its column
/// values: a function of those alone.
pub uninterp spec fn parquet_file(names: Seq<Seq<char>>, cols: Seq<Seq<i64>>) -> Seq<u8>;

/// The batch content stored in a parquet file, if the bytes decode to
/// integer columns at all.
pub uninterp spec fn parquet_content(bytes: Seq<u8>) -> Option<BatchModel>;

/// Relies on parquet's `ArrowWriter` over an in-memory buffer, with
/// fixed writer properties (Snappy compression, the crate's constant
/// `created_by`): the produced bytes depend on the schema and column
/// values alone, and every parquet file begins and ends with the
/// four-byte magic, so it is at least eight bytes long.  A file this
/// writer produced reads back to the batch's own names and columns.
/// For a well-formed batch the only failure is the arrow batch
/// constructor's rejection of a batch with no columns; it returns an
/// error and never panics.
#[verifier::external_body]
fn parquet_encode(batch: &ColumnarBatch) -> (r: Option<Vec<u8>>)
    requires
        batch@.wf(),
    ensures
        r is Some <==> batch@.cols.len() >= 1,
        r matches Some(b) ==> b@ == parquet_file(batch@.names, batch@.cols),
        r matches Some(b) ==> b@.len() >= 8,
        r matches Some(b) ==> parquet_content(b@) matches Some(m) && m.names == batch@.names
            && m.cols == batch@.cols,
{
    let arrays = batch.field_names.iter().zip(batch.columns.iter()).map(
        |(n, c)| (n.clone(), Arc::new(Int64Array::from(c.clone())) as ArrayRef),
    );
    let rb = RecordBatch::try_from_iter(arrays).ok()?;
    let props = WriterProperties::builder().set_compression(Compression::SNAPPY).build();
    let mut writer = ArrowWriter::try_new(Vec::new(), rb.schema(), Some(props)).ok()?;
    writer.write(&rb).ok()?;
    writer.into_inner().ok()
}

/// What a successful read returns: the stored content exists, is
/// well-formed, and the returned batches carry it — every batch under
/// the stored schema, their columns concatenating to the stored column
/// contents in row order.
pub open spec fn spec_read_claim(bytes: Seq<u8>, bs: Seq<ColumnarBatch>) -> bool {
    parquet_content(bytes) matches Some(m) && {
        &&& m.wf()
        &&& forall|i: int| 0 <= i < bs.len() ==> (#[trigger] bs[i]@).wf()
        &&& forall|i: int| 0 <= i < bs.len() ==> (#[trigger] bs[i]@).names == m.names
        &&& forall|c: int|
            0 <= c < m.cols.len() ==> spec_cat_col(bs.map_values(|b: ColumnarBatch| b@), c)
                == #[trigger] m.cols[c]
        &&& bs.len() > 0 ==> bs[0]@.cols.len() == m.cols.len()
    }
}

/// Relies on parquet's `ParquetRecordBatchReaderBuilder`: reading an
/// in-memory file yields the stored record batches in row order, all
/// under the file's schema.  Only non-null 64-bit integer columns are
/// converted; anything else is a decode failure.  Success happens
/// exactly on bytes that store such content — which is what pins the
/// domain of the stored-content name.
#[verifier::external_body]
fn parquet_decode(bytes: &Vec<u8>) -> (r: Option<Vec<ColumnarBatch>>)
    ensures
        r is Some <==> parquet_content(bytes@) is Some,
        r matches Some(bs) ==> spec_read_claim(bytes@, bs@),
{
    let data = bytes::Bytes::from(bytes.clone());
    let reader = ParquetRecordBatchReaderBuilder::try_new(data).ok()?.build().ok()?;
    let mut out: Vec<ColumnarBatch> = Vec::new();
    for rb in reader {
        let rb = rb.ok()?;
        let field_names = rb.schema().fields().iter().map(|f| f.name().clone()).collect();
        let mut columns: Vec<Vec<i64>> = Vec::new();
        for col in rb.columns() {
            let arr = col.as_any().downcast_ref::<Int64Array>().filter(|a| a.null_count() == 0)?;
            columns.push(arr.values().to_vec());
        }
        out.push(ColumnarBatch { field_names, columns });
    }
    Some(out)
}

/// Serialize a batch.  Success happens exactly when the batch has a
/// column at all; the bytes are then the parquet encoding of the
/// batch's schema and columns — the same bytes on every run — never
/// empty (so ratio computation cannot divide by zero), and they read
/// back to the batch itself: the write→read round trip reproduces the
/// field names and the column contents exactly.
pub fn write_bytes(batch: &ColumnarBatch) -> (r: Result<Vec<u8>, BenchError>)
    requires
        batch@.wf(),
    ensures
        r is Ok <==> batch@.cols.len() >= 1,
        r matches Ok(b) ==> {
            &&& b@ == parquet_file(batch@.names, batch@.cols)
            &&& b@.len() >= 8
            &&& parquet_content(b@) matches Some(m) && m.names == batch@.names && m.cols
                == batch@.cols
        },
        r matches Err(e) ==> e == BenchError::EncodeFailed,
{
    match parquet_encode(batch) {
        Some(b) => Ok(b),
        None => Err(BenchError::EncodeFailed),
    }
}

/// Deserialize all rows: on success the returned batches share the
/// stored schema, and their columns concatenate to exactly the stored
/// column contents, in row order.
pub fn read_bytes(bytes: &Vec<u8>) -> (r: Result<Vec<ColumnarBatch>, BenchError>)
    ensures
        r is Ok <==> parquet_content(bytes@) is Some,
        r matches Ok(bs) ==> spec_read_claim(bytes@, bs@),
        r matches Err(e) ==> e == BenchError::DecodeFailed,
{
    match parquet_decode(bytes) {
        Some(bs) => Ok(bs),
        None => Err(BenchError::DecodeFailed),
    }
}

/// Random access: a batch holding exactly the stored rows at
/// `positions`, in the order given.  Parquet has no native gather here,
/// so this is defined as reading all rows and gathering every column.
/// Success is owed whenever the bytes store content with at least one
/// row and every position is below the stored row count.
pub fn take_rows_from_bytes(bytes: &Vec<u8>, positions: &Vec<usize>) -> (r: Result<
    ColumnarBatch,
    BenchError,
>)
    ensures
        (parquet_content(bytes@) matches Some(m) && m.num_rows() > 0 && (forall|k: int|
            0 <= k < positions@.len() ==> (#[trigger] positions@[k]) < m.num_rows())) ==> r is Ok,
        r matches Ok(b) ==> parquet_content(bytes@) matches Some(m) && {
            &&& b@.wf()
            &&& b@.names == m.names
            &&& b@.cols =~= spec_gather(m.cols, positions@)
            &&& m.cols.len() > 0 ==> b@.num_rows() == positions@.len()
        },
        r matches Err(e) ==> e == BenchError::DecodeFailed || e == BenchError::IndexOutOfRange,
{
    let batches: Vec<ColumnarBatch> = match parquet_decode(bytes) {
        Some(bs) => bs,
        None => {
            return Err(BenchError::DecodeFailed);
        },
    };
    if batches.len() == 0 {
        // A file of no row groups offers no rows (and no schema to
        // shape an empty result with).  Such a file stores zero rows,
        // so no success is owed: a nonempty stored column would have
        // had to come from some returned batch.
        proof {
            let content = parquet_content(bytes@);
            if content is Some && content.unwrap().num_rows() > 0 {
                let m0: BatchModel = content.unwrap();
                let models: Seq<BatchModel> = batches@.map_values(|b: ColumnarBatch| b@);
                assert(models.len() == 0);
                assert(spec_cat_col(models, 0) == Seq::<i64>::empty());
                assert(m0.cols[0].len() == 0);
                assert(false);
            }
        }
        return Err(BenchError::DecodeFailed);
    }
    let whole: ColumnarBatch = concat_batches(&batches);
    let ghost m: BatchModel = parquet_content(bytes@).unwrap();
    proof {
        assert(whole@.cols =~= m.cols);
        assert(whole@.names == m.names);
        assert(whole@.num_rows() == m.num_rows());
    }
    match whole.take(positions) {
        Ok(b) => {
            proof {
                assert(b@.cols =~= spec_gather(m.cols, positions@));
            }
            Ok(b)
        },
        Err(_) => Err(BenchError::IndexOutOfRange),
    }
}

/// Written sizes are stable: the parquet encoding is a function of the
/// schema and column values, so two writes of the same batch produce
/// the same bytes — and hence the same written size and ratio — on
/// every run.
pub proof fn lemma_written_bytes_stable(
    names: Seq<Seq<char>>,
    cols: Seq<Seq<i64>>,
    b1: Seq<u8>,
    b2: Seq<u8>,
)
    requires
        b1 == parquet_file(names, cols),
        b2 == parquet_file(names, cols),
    ensures
        b1 == b2,
        b1.len() == b2.len(),
{
}

} // verus!
