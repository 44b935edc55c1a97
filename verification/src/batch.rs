//! Columnar batches: a schema of named integer columns of equal row
//! count.
//!
//! The batch is the unit every backend writes, reads and takes from.
//! Its model is the sequence of field names and the sequence of
//! columns; well-formedness says the counts agree.  `take` is the
//! random-access gather every backend's take operation is defined by:
//! row `k` of the result is the batch's row at position `k` of the
//! index set, in the order the positions were given.

use vstd::prelude::*;
use crate::error::BenchError;

verus! {

/// The abstract value of a batch: field names and column contents.
pub struct BatchModel {
    /// The column names, in schema order.
    pub names: Seq<Seq<char>>,
    /// The column contents, in schema order.
    pub cols: Seq<Seq<i64>>,
}

impl BatchModel {
    /// The row count: the length of the first column (zero without columns).
    pub open spec fn num_rows(self) -> nat {
        if self.cols.len() == 0 {
            0
        } else {
            self.cols[0].len()
        }
    }

    /// Every batch invariant: one name per column, all columns of equal
    /// row count.
    pub open spec fn wf(self) -> bool {
        &&& self.cols.len() == self.names.len()
        &&& forall|c: int| 0 <= c < self.cols.len() ==> #[trigger] self.cols[c].len()
            == self.num_rows()
    }
}

/// One column gathered at the given positions, in the given order.
pub open spec fn spec_gather_col(col: Seq<i64>, positions: Seq<usize>) -> Seq<i64> {
    positions.map_values(|p: usize| col[p as int])
}

/// All columns gathered at the given positions.
pub open spec fn spec_gather(cols: Seq<Seq<i64>>, positions: Seq<usize>) -> Seq<Seq<i64>> {
    cols.map_values(|col: Seq<i64>| spec_gather_col(col, positions))
}

/// A columnar record batch.
pub struct ColumnarBatch {
    pub(crate) field_names: Vec<String>,
    pub(crate) columns: Vec<Vec<i64>>,
}

impl View for ColumnarBatch {
    type V = BatchModel;

    closed spec fn view(&self) -> BatchModel {
        BatchModel {
            names: self.field_names@.map_values(|s: String| s@),
            cols: self.columns@.map_values(|c: Vec<i64>| c@),
        }
    }
}

impl ColumnarBatch {
    /// Build a batch, rejecting a mismatched schema: the field and
    /// column counts must agree, and all columns must share one row
    /// count.  Such a mismatch is a programmer error and aborts the
    /// trial.
    pub fn try_new(field_names: Vec<String>, columns: Vec<Vec<i64>>) -> (r: Result<
        ColumnarBatch,
        BenchError,
    >)
        ensures
            match r {
                Ok(b) => {
                    &&& b@.wf()
                    &&& b@.names == field_names@.map_values(|s: String| s@)
                    &&& b@.cols == columns@.map_values(|c: Vec<i64>| c@)
                },
                Err(BenchError::FieldCountMismatch) => field_names@.len() != columns@.len(),
                Err(BenchError::RowCountMismatch) => exists|c: int|
                    0 <= c < columns@.len() && #[trigger] columns@[c]@.len() != columns@[0]@.len(),
                Err(_) => false,
            },
            r is Ok <==> (field_names@.len() == columns@.len() && (forall|c: int|
                0 <= c < columns@.len() ==> #[trigger] columns@[c]@.len() == columns@[0]@.len())),
    {
        if field_names.len() != columns.len() {
            return Err(BenchError::FieldCountMismatch);
        }
        let mut c: usize = 0;
        while c < columns.len()
            invariant
                c <= columns@.len(),
                forall|k: int| 0 <= k < c ==> #[trigger] columns@[k]@.len() == columns@[0]@.len(),
            decreases columns@.len() - c,
        {
            if columns[c].len() != columns[0].len() {
                return Err(BenchError::RowCountMismatch);
            }
            c = c + 1;
        }
        let b = ColumnarBatch { field_names, columns };
        proof {
            assert forall|k: int| 0 <= k < b@.cols.len() implies #[trigger] b@.cols[k].len()
                == b@.num_rows() by {
                assert(b@.cols[k] == b.columns@[k]@);
            }
        }
        Ok(b)
    }

    /// Wrap one generated sequence as a single-column batch; the batch
    /// builder for plain (one-feature) trials, which cannot fail.
    pub fn single_column(name: String, values: Vec<i64>) -> (r: ColumnarBatch)
        ensures
            r@.wf(),
            r@.names =~= seq![name@],
            r@.cols =~= seq![values@],
            r@.num_rows() == values@.len(),
    {
        let mut field_names: Vec<String> = Vec::new();
        field_names.push(name);
        let mut columns: Vec<Vec<i64>> = Vec::new();
        columns.push(values);
        ColumnarBatch { field_names, columns }
    }

    /// The row count shared by every column.
    pub fn num_rows(&self) -> (r: usize)
        ensures
            r == self@.num_rows(),
    {
        if self.columns.len() == 0 {
            0
        } else {
            self.columns[0].len()
        }
    }

    /// The column (and field) count.
    pub fn num_columns(&self) -> (r: usize)
        ensures
            r == self@.cols.len(),
    {
        self.columns.len()
    }

    /// The name of column `c`.
    pub fn field_name_at(&self, c: usize) -> (r: &String)
        requires
            c < self@.names.len(),
        ensures
            r@ == self@.names[c as int],
    {
        &self.field_names[c]
    }

    /// The contents of column `c`.
    pub fn column_at(&self, c: usize) -> (r: &Vec<i64>)
        requires
            c < self@.cols.len(),
        ensures
            r@ == self@.cols[c as int],
    {
        &self.columns[c]
    }

    /// The random-access gather: a batch holding exactly the rows at
    /// `positions`, in the order given.  Row `k` of the result is this
    /// batch's row at `positions[k]`.  A position at or beyond the row
    /// count aborts with `IndexOutOfRange`.
    pub fn take(&self, positions: &Vec<usize>) -> (r: Result<ColumnarBatch, BenchError>)
        requires
            self@.wf(),
        ensures
            r is Ok <==> (forall|k: int|
                0 <= k < positions@.len() ==> (#[trigger] positions@[k]) < self@.num_rows()),
            r matches Err(e) ==> e == BenchError::IndexOutOfRange,
            r matches Ok(b) ==> {
                &&& b@.wf()
                &&& b@.names == self@.names
                &&& b@.cols =~= spec_gather(self@.cols, positions@)
                &&& self@.cols.len() > 0 ==> b@.num_rows() == positions@.len()
            },
    {
        let rows: usize = self.num_rows();
        let mut k: usize = 0;
        while k < positions.len()
            invariant
                k <= positions@.len(),
                rows == self@.num_rows(),
                forall|q: int| 0 <= q < k ==> (#[trigger] positions@[q]) < rows,
            decreases positions@.len() - k,
        {
            if positions[k] >= rows {
                return Err(BenchError::IndexOutOfRange);
            }
            k = k + 1;
        }
        let mut out_names: Vec<String> = Vec::new();
        let mut out_cols: Vec<Vec<i64>> = Vec::new();
        let mut c: usize = 0;
        while c < self.columns.len()
            invariant
                c <= self@.cols.len(),
                self@.wf(),
                rows == self@.num_rows(),
                forall|q: int| 0 <= q < positions@.len() ==> (#[trigger] positions@[q]) < rows,
                self@.names.len() == self@.cols.len(),
                out_names@.len() == c,
                out_cols@.len() == c,
                forall|q: int| 0 <= q < c ==> #[trigger] out_names@[q]@ == self@.names[q],
                forall|q: int|
                    0 <= q < c ==> #[trigger] out_cols@[q]@ == spec_gather_col(
                        self@.cols[q],
                        positions@,
                    ),
            decreases self@.cols.len() - c,
        {
            let mut col: Vec<i64> = Vec::new();
            let mut k: usize = 0;
            while k < positions.len()
                invariant
                    k <= positions@.len(),
                    c < self@.cols.len(),
                    self@.wf(),
                    rows == self@.num_rows(),
                    forall|q: int| 0 <= q < positions@.len() ==> (#[trigger] positions@[q]) < rows,
                    col@.len() == k,
                    forall|q: int|
                        0 <= q < k ==> #[trigger] col@[q] == self@.cols[c as int][positions@[q]
                            as int],
                decreases positions@.len() - k,
            {
                proof {
                    assert(self@.cols[c as int] == self.columns@[c as int]@);
                }
                col.push(self.columns[c][positions[k]]);
                k = k + 1;
            }
            proof {
                assert(col@ =~= spec_gather_col(self@.cols[c as int], positions@));
                assert(self@.names[c as int] == self.field_names@[c as int]@);
            }
            out_names.push(self.field_names[c].clone());
            out_cols.push(col);
            c = c + 1;
        }
        let b = ColumnarBatch { field_names: out_names, columns: out_cols };
        proof {
            assert(b@.names =~= self@.names);
            assert(b@.cols =~= spec_gather(self@.cols, positions@));
            assert forall|q: int| 0 <= q < b@.cols.len() implies #[trigger] b@.cols[q].len()
                == b@.num_rows() by {
                assert(b@.cols[q] == spec_gather(self@.cols, positions@)[q]);
            }
        }
        Ok(b)
    }
}

/// Take correctness: in a gathered batch, row `k` of every column is
/// the source batch's row at `positions[k]` — the rows at the given
/// positions, in the order given.
pub proof fn lemma_gather_takes_rows_in_order(
    cols: Seq<Seq<i64>>,
    positions: Seq<usize>,
    c: int,
    k: int,
)
    requires
        0 <= c < cols.len(),
        0 <= k < positions.len(),
    ensures
        spec_gather(cols, positions)[c].len() == positions.len(),
        spec_gather(cols, positions)[c][k] == cols[c][positions[k] as int],
{
}

/// The column contents of a run of batches, concatenated per column.
pub open spec fn spec_cat_col(bs: Seq<BatchModel>, c: int) -> Seq<i64>
    decreases bs.len(),
{
    if bs.len() == 0 {
        Seq::empty()
    } else {
        spec_cat_col(bs.drop_last(), c) + bs.last().cols[c]
    }
}

/// Concatenate batches of one schema into a single batch, keeping row
/// order: the batches' rows follow one another.
pub fn concat_batches(batches: &Vec<ColumnarBatch>) -> (r: ColumnarBatch)
    requires
        batches@.len() >= 1,
        forall|i: int| 0 <= i < batches@.len() ==> (#[trigger] batches@[i]@).wf(),
        forall|i: int| 0 <= i < batches@.len() ==> (#[trigger] batches@[i]@).names
            == batches@[0]@.names,
    ensures
        r@.wf(),
        r@.names == batches@[0]@.names,
        forall|c: int| 0 <= c < r@.cols.len() ==> #[trigger] r@.cols[c] == spec_cat_col(
            batches@.map_values(|b: ColumnarBatch| b@),
            c,
        ),
        r@.cols.len() == batches@[0]@.cols.len(),
{
    let ghost models: Seq<BatchModel> = batches@.map_values(|b: ColumnarBatch| b@);
    let ncols: usize = batches[0].num_columns();
    let mut out_names: Vec<String> = Vec::new();
    let mut out_cols: Vec<Vec<i64>> = Vec::new();
    let mut c: usize = 0;
    while c < ncols
        invariant
            c <= ncols,
            ncols == batches@[0]@.cols.len(),
            models == batches@.map_values(|b: ColumnarBatch| b@),
            batches@.len() >= 1,
            forall|i: int| 0 <= i < batches@.len() ==> (#[trigger] batches@[i]@).wf(),
            forall|i: int| 0 <= i < batches@.len() ==> (#[trigger] batches@[i]@).names
                == batches@[0]@.names,
            out_names@.len() == c,
            out_cols@.len() == c,
            forall|q: int| 0 <= q < c ==> #[trigger] out_names@[q]@ == batches@[0]@.names[q],
            forall|q: int| 0 <= q < c ==> #[trigger] out_cols@[q]@ == spec_cat_col(models, q),
        decreases ncols - c,
    {
        let mut col: Vec<i64> = Vec::new();
        let mut k: usize = 0;
        while k < batches.len()
            invariant
                k <= batches@.len(),
                c < ncols,
                ncols == batches@[0]@.cols.len(),
                models == batches@.map_values(|b: ColumnarBatch| b@),
                batches@.len() >= 1,
                forall|i: int| 0 <= i < batches@.len() ==> (#[trigger] batches@[i]@).wf(),
                forall|i: int| 0 <= i < batches@.len() ==> (#[trigger] batches@[i]@).names
                    == batches@[0]@.names,
                col@ == spec_cat_col(models.take(k as int), c as int),
            decreases batches@.len() - k,
        {
            let ghost col_pre: Seq<i64> = col@;
            let piece: &Vec<i64> = batches[k].column_at(c);
            let mut p: usize = 0;
            while p < piece.len()
                invariant
                    p <= piece@.len(),
                    col@ == col_pre + piece@.take(p as int),
                decreases piece@.len() - p,
            {
                col.push(piece[p]);
                proof {
                    assert(col@ =~= col_pre + piece@.take(p + 1));
                }
                p = p + 1;
            }
            proof {
                assert(piece@.take(piece@.len() as int) =~= piece@);
                assert(models.take(k + 1).drop_last() =~= models.take(k as int));
                assert(models.take(k + 1).last() == models[k as int]);
                assert(col@ =~= spec_cat_col(models.take(k + 1), c as int));
            }
            k = k + 1;
        }
        proof {
            assert(models.take(models.len() as int) =~= models);
            assert(batches@[0]@.wf());
        }
        out_names.push(batches[0].field_name_at(c).clone());
        out_cols.push(col);
        c = c + 1;
    }
    let b = ColumnarBatch { field_names: out_names, columns: out_cols };
    proof {
        assert(b@.names =~= batches@[0]@.names);
        assert forall|q: int| 0 <= q < b@.cols.len() implies #[trigger] b@.cols[q] == spec_cat_col(
            models,
            q,
        ) by {
            assert(b@.cols[q] == out_cols@[q]@);
        }
        assert forall|i: int| 0 <= i < models.len() implies (#[trigger] models[i]).cols.len()
            == models[0].cols.len() by {
            assert(models[i] == batches@[i]@);
            assert(models[i].names == models[0].names);
        }
        assert forall|q: int| 0 <= q < b@.cols.len() implies #[trigger] b@.cols[q].len()
            == b@.num_rows() by {
            lemma_cat_col_same_len(models, q, 0);
            assert(b@.cols[0] == spec_cat_col(models, 0));
        }
    }
    b
}

/// Concatenated columns of one batch run share a length: each batch
/// contributes its row count to every column alike.
proof fn lemma_cat_col_same_len(bs: Seq<BatchModel>, c1: int, c2: int)
    requires
        forall|i: int| 0 <= i < bs.len() ==> (#[trigger] bs[i]).wf(),
        forall|i: int| 0 <= i < bs.len() ==> (#[trigger] bs[i]).cols.len() == bs[0].cols.len(),
        0 <= c1 < bs[0].cols.len() || bs.len() == 0,
        0 <= c2 < bs[0].cols.len() || bs.len() == 0,
    ensures
        spec_cat_col(bs, c1).len() == spec_cat_col(bs, c2).len(),
    decreases bs.len(),
{
    if bs.len() > 0 {
        lemma_cat_col_same_len(bs.drop_last(), c1, c2);
    }
}

} // verus!
