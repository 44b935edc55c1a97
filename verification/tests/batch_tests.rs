use lance_rle_benchmark::batch::{concat_batches, ColumnarBatch};
use lance_rle_benchmark::error::BenchError;
use lance_rle_benchmark::generate::generate;
use lance_rle_benchmark::pattern::DataPattern;

fn names(list: &[&str]) -> Vec<String> {
    list.iter().map(|s| s.to_string()).collect()
}

#[test]
fn mismatched_field_count_is_rejected() {
    let r = ColumnarBatch::try_new(names(&["a", "b"]), vec![vec![1, 2, 3]]);
    assert_eq!(r.err(), Some(BenchError::FieldCountMismatch));
}

#[test]
fn mismatched_row_count_is_rejected() {
    let r = ColumnarBatch::try_new(names(&["a", "b"]), vec![vec![1, 2, 3], vec![4, 5]]);
    assert_eq!(r.err(), Some(BenchError::RowCountMismatch));
}

#[test]
fn a_well_formed_batch_is_accepted() {
    let b = ColumnarBatch::try_new(names(&["a", "b"]), vec![vec![1, 2, 3], vec![4, 5, 6]])
        .unwrap();
    assert_eq!(b.num_rows(), 3);
    assert_eq!(b.num_columns(), 2);
    assert_eq!(b.field_name_at(0), "a");
    assert_eq!(b.field_name_at(1), "b");
    assert_eq!(b.column_at(1), &vec![4, 5, 6]);
}

#[test]
fn single_column_wraps_a_sequence() {
    let b = ColumnarBatch::single_column("values".to_string(), vec![7, 9, 11]);
    assert_eq!(b.num_rows(), 3);
    assert_eq!(b.num_columns(), 1);
    assert_eq!(b.field_name_at(0), "values");
    assert_eq!(b.column_at(0), &vec![7, 9, 11]);
}

#[test]
fn take_middle_row_of_a_monotonic_batch() {
    let values = generate(&DataPattern::Monotonic { step: 1 }, 1000);
    let b = ColumnarBatch::single_column("values".to_string(), values);
    let t = b.take(&vec![500]).unwrap();
    assert_eq!(t.num_rows(), 1);
    assert_eq!(t.column_at(0), &vec![500]);
}

#[test]
fn take_keeps_the_requested_order_and_duplicates() {
    let b = ColumnarBatch::single_column("v".to_string(), vec![10, 11, 12, 13, 14, 15]);
    let t = b.take(&vec![5, 2, 2, 0]).unwrap();
    assert_eq!(t.column_at(0), &vec![15, 12, 12, 10]);
}

#[test]
fn take_gathers_every_column() {
    let b = ColumnarBatch::try_new(
        names(&["x", "y"]),
        vec![vec![1, 2, 3, 4], vec![10, 20, 30, 40]],
    )
    .unwrap();
    let t = b.take(&vec![3, 1]).unwrap();
    assert_eq!(t.column_at(0), &vec![4, 2]);
    assert_eq!(t.column_at(1), &vec![40, 20]);
    assert_eq!(t.field_name_at(0), "x");
    assert_eq!(t.field_name_at(1), "y");
}

#[test]
fn take_rejects_an_out_of_range_position() {
    let b = ColumnarBatch::single_column("v".to_string(), vec![1, 2, 3]);
    let r = b.take(&vec![1, 3]);
    assert_eq!(r.err(), Some(BenchError::IndexOutOfRange));
}

#[test]
fn concatenation_appends_rows_in_order() {
    let a = ColumnarBatch::single_column("v".to_string(), vec![1, 2]);
    let b = ColumnarBatch::single_column("v".to_string(), vec![3]);
    let c = ColumnarBatch::single_column("v".to_string(), vec![4, 5]);
    let whole = concat_batches(&vec![a, b, c]);
    assert_eq!(whole.num_rows(), 5);
    assert_eq!(whole.num_columns(), 1);
    assert_eq!(whole.column_at(0), &vec![1, 2, 3, 4, 5]);
    assert_eq!(whole.field_name_at(0), "v");
}
