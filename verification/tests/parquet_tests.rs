use lance_rle_benchmark::batch::ColumnarBatch;
use lance_rle_benchmark::error::BenchError;
use lance_rle_benchmark::generate::generate;
use lance_rle_benchmark::indices::generate_indices;
use lance_rle_benchmark::parquet::{read_bytes, take_rows_from_bytes, write_bytes};
use lance_rle_benchmark::pattern::DataPattern;

fn batch_of(pattern: DataPattern, rows: usize) -> (Vec<i64>, ColumnarBatch) {
    let values = generate(&pattern, rows);
    let b = ColumnarBatch::single_column("values".to_string(), values.clone());
    (values, b)
}

#[test]
fn roundtrip_random_thousand_rows() {
    let (values, batch) = batch_of(DataPattern::Random, 1000);
    let bytes = write_bytes(&batch).unwrap();
    let read = read_bytes(&bytes).unwrap();
    assert_eq!(read.len(), 1, "a thousand rows should come back as one batch");
    let total: usize = read.iter().map(|b| b.num_rows()).sum();
    assert_eq!(total, 1000);
    let mut recovered: Vec<i64> = Vec::new();
    for b in &read {
        assert_eq!(b.num_columns(), 1);
        assert_eq!(b.field_name_at(0), "values");
        recovered.extend_from_slice(b.column_at(0));
    }
    assert_eq!(recovered, values);
}

#[test]
fn roundtrip_keeps_schema_of_many_columns() {
    let cols = vec![
        generate(&DataPattern::Monotonic { step: 2 }, 100),
        generate(&DataPattern::Sparse { density_ppm: 400_000 }, 100),
        generate(&DataPattern::Random, 100),
    ];
    let names: Vec<String> = vec!["uuid".to_string(), "f0".to_string(), "f1".to_string()];
    let batch = ColumnarBatch::try_new(names, cols.clone()).unwrap();
    let bytes = write_bytes(&batch).unwrap();
    let read = read_bytes(&bytes).unwrap();
    assert!(!read.is_empty());
    for b in &read {
        assert_eq!(b.num_columns(), 3);
        assert_eq!(b.field_name_at(0), "uuid");
        assert_eq!(b.field_name_at(1), "f0");
        assert_eq!(b.field_name_at(2), "f1");
    }
    for c in 0..3 {
        let mut recovered: Vec<i64> = Vec::new();
        for b in &read {
            recovered.extend_from_slice(b.column_at(c));
        }
        assert_eq!(recovered, cols[c], "column {} changed in the round trip", c);
    }
}

#[test]
fn take_middle_row_through_stored_bytes() {
    let (_, batch) = batch_of(DataPattern::Monotonic { step: 1 }, 1000);
    let bytes = write_bytes(&batch).unwrap();
    let row = take_rows_from_bytes(&bytes, &vec![500]).unwrap();
    assert_eq!(row.num_rows(), 1);
    assert_eq!(row.column_at(0), &vec![500]);
}

#[test]
fn take_returns_rows_at_the_sampled_positions() {
    let (values, batch) = batch_of(DataPattern::Random, 1000);
    let bytes = write_bytes(&batch).unwrap();
    let positions = generate_indices(1000, 10_000);
    assert_eq!(positions.len(), 10);
    let taken = take_rows_from_bytes(&bytes, &positions).unwrap();
    assert_eq!(taken.num_rows(), positions.len());
    let col = taken.column_at(0);
    for (k, &p) in positions.iter().enumerate() {
        assert_eq!(col[k], values[p], "row {} is not the batch's row {}", k, p);
    }
}

#[test]
fn written_bytes_are_stable_across_runs() {
    let (_, batch1) = batch_of(DataPattern::Runs { run_length: 6, unique_values: 5 }, 2000);
    let (_, batch2) = batch_of(DataPattern::Runs { run_length: 6, unique_values: 5 }, 2000);
    let a = write_bytes(&batch1).unwrap();
    let b = write_bytes(&batch2).unwrap();
    assert_eq!(a, b, "two writes of the same generated batch differ");
}

#[test]
fn written_bytes_carry_the_format_header() {
    let (_, batch) = batch_of(DataPattern::Sparse { density_ppm: 0 }, 10);
    let bytes = write_bytes(&batch).unwrap();
    assert!(bytes.len() >= 8);
    assert_eq!(&bytes[0..4], b"PAR1");
    assert_eq!(&bytes[bytes.len() - 4..], b"PAR1");
}

#[test]
fn roundtrip_of_zero_rows_keeps_nothing() {
    let (_, batch) = batch_of(DataPattern::Random, 0);
    let bytes = write_bytes(&batch).unwrap();
    assert!(bytes.len() >= 8);
    let read = read_bytes(&bytes).unwrap();
    let total: usize = read.iter().map(|b| b.num_rows()).sum();
    assert_eq!(total, 0);
}

#[test]
fn take_of_no_positions_is_an_empty_batch() {
    let (_, batch) = batch_of(DataPattern::Monotonic { step: 2 }, 100);
    let bytes = write_bytes(&batch).unwrap();
    let taken = take_rows_from_bytes(&bytes, &vec![]).unwrap();
    assert_eq!(taken.num_rows(), 0);
    assert_eq!(taken.num_columns(), 1);
    assert_eq!(taken.field_name_at(0), "values");
}

#[test]
fn garbage_bytes_fail_to_decode() {
    let r = read_bytes(&vec![1, 2, 3, 4, 5]);
    assert_eq!(r.err(), Some(BenchError::DecodeFailed));
}

#[test]
fn take_from_garbage_bytes_fails() {
    let r = take_rows_from_bytes(&vec![9, 9, 9], &vec![0]);
    assert_eq!(r.err(), Some(BenchError::DecodeFailed));
}

#[test]
fn take_out_of_range_position_fails() {
    let (_, batch) = batch_of(DataPattern::Monotonic { step: 1 }, 50);
    let bytes = write_bytes(&batch).unwrap();
    let r = take_rows_from_bytes(&bytes, &vec![50]);
    assert_eq!(r.err(), Some(BenchError::IndexOutOfRange));
}
