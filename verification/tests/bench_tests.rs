use lance_rle_benchmark::backend::{encoding_hint, hint_key, hinted_fields, BackendKind};
use lance_rle_benchmark::bench::{
    best_ratio_flags, plan_trials, ratio_centi, record_result, summarize_cell, uncompressed_size,
    Operation, TrialSpec,
};
use lance_rle_benchmark::error::BenchError;
use lance_rle_benchmark::pattern::DataPattern;

#[test]
fn uncompressed_size_follows_the_fixed_formula() {
    // One 8-byte key column plus 3827 8-byte feature columns.
    assert_eq!(uncompressed_size(1000, 3828).unwrap(), 1000 * (8 + 8 * 3827));
    assert_eq!(uncompressed_size(0, 5).unwrap(), 0);
    assert_eq!(uncompressed_size(7, 1).unwrap(), 56);
}

#[test]
fn uncompressed_size_rejects_overflow() {
    let r = uncompressed_size(usize::MAX, usize::MAX);
    assert_eq!(r.err(), Some(BenchError::SizeOverflow));
}

#[test]
fn best_flags_mark_all_tied_winners() {
    // Ratios 160x, 80x, 160x: both winners flagged, in declared order.
    let flags = best_ratio_flags(16000, &vec![100, 200, 100]).unwrap();
    assert_eq!(flags, vec![true, false, true]);
}

#[test]
fn best_flags_respect_the_absolute_tolerance() {
    // 100000000/1000000 = 100.0 and 100000000/1000001 differ by less
    // than one ten-thousandth: a tie.  1000002 falls outside it.
    let near = best_ratio_flags(100_000_000, &vec![1_000_000, 1_000_001]).unwrap();
    assert_eq!(near, vec![true, true]);
    let far = best_ratio_flags(100_000_000, &vec![1_000_000, 1_000_002]).unwrap();
    assert_eq!(far, vec![true, false]);
}

#[test]
fn a_zero_written_size_fails_loudly() {
    let r = best_ratio_flags(1000, &vec![100, 0]);
    assert_eq!(r.err(), Some(BenchError::ZeroWrittenSize));
}

#[test]
fn ratio_centi_rounds_to_the_nearest_hundredth() {
    assert_eq!(ratio_centi(16000, 100), 16000); // 160.00x
    assert_eq!(ratio_centi(1000, 300), 333); // 333.33 -> 333
    assert_eq!(ratio_centi(125, 1000), 13); // 12.5 -> 13
    assert_eq!(ratio_centi(1, 1), 100); // 1.00x
}

#[test]
fn summarize_cell_collects_every_field() {
    let row = summarize_cell(1000, 2, &vec![4000, 8000, 16000]).unwrap();
    assert_eq!(row.rows, 1000);
    assert_eq!(row.uncompressed, 16000);
    assert_eq!(row.written, vec![4000, 8000, 16000]);
    assert_eq!(row.ratio_centis, vec![400, 200, 100]);
    assert_eq!(row.best, vec![true, false, false]);
}

#[test]
fn summarize_cell_propagates_both_failures() {
    let overflow = summarize_cell(usize::MAX, usize::MAX, &vec![1]);
    assert_eq!(overflow.err(), Some(BenchError::SizeOverflow));
    let zero = summarize_cell(10, 2, &vec![1, 0]);
    assert_eq!(zero.err(), Some(BenchError::ZeroWrittenSize));
}

#[test]
fn the_trial_plan_is_the_cross_product() {
    let backends = vec![BackendKind::LanceBitpacking, BackendKind::LanceRle, BackendKind::Parquet];
    let patterns = vec![DataPattern::Monotonic { step: 1 }, DataPattern::Random];
    let sizes = vec![10usize, 20];
    let plan = plan_trials(&backends, &patterns, &sizes);
    assert_eq!(plan.len(), 12);
    assert_eq!(
        plan[0],
        TrialSpec {
            backend: BackendKind::LanceBitpacking,
            pattern: DataPattern::Monotonic { step: 1 },
            rows: 10
        }
    );
    assert_eq!(
        plan[1],
        TrialSpec {
            backend: BackendKind::LanceBitpacking,
            pattern: DataPattern::Monotonic { step: 1 },
            rows: 20
        }
    );
    assert_eq!(
        plan[2],
        TrialSpec {
            backend: BackendKind::LanceBitpacking,
            pattern: DataPattern::Random,
            rows: 10
        }
    );
    assert_eq!(
        plan[11],
        TrialSpec { backend: BackendKind::Parquet, pattern: DataPattern::Random, rows: 20 }
    );
}

#[test]
fn a_result_records_what_was_measured() {
    let r = record_result(
        BackendKind::Parquet,
        DataPattern::Random,
        1000,
        Operation::Write,
        4096,
        123_456,
    );
    assert_eq!(r.backend, BackendKind::Parquet);
    assert_eq!(r.pattern, DataPattern::Random);
    assert_eq!(r.rows, 1000);
    assert_eq!(r.operation, Operation::Write);
    assert_eq!(r.bytes, 4096);
    assert_eq!(r.elapsed_nanos, 123_456);
}

#[test]
fn each_backend_requests_its_hint() {
    assert_eq!(encoding_hint(BackendKind::LanceBitpacking), Some("bitpacking"));
    assert_eq!(encoding_hint(BackendKind::LanceRle), Some("rle"));
    assert_eq!(encoding_hint(BackendKind::Parquet), None);
    assert_eq!(hint_key(), "compression");
}

#[test]
fn hinted_fields_pair_every_name_with_the_hint() {
    let names = vec!["uuid".to_string(), "f0".to_string()];
    let rle = hinted_fields(&names, BackendKind::LanceRle);
    assert_eq!(rle.len(), 2);
    assert_eq!(rle[0], ("uuid".to_string(), Some("rle".to_string())));
    assert_eq!(rle[1], ("f0".to_string(), Some("rle".to_string())));
    let plain = hinted_fields(&names, BackendKind::Parquet);
    assert_eq!(plain[0], ("uuid".to_string(), None));
    assert_eq!(plain[1], ("f0".to_string(), None));
}

#[test]
fn pattern_parameter_validation() {
    assert!(DataPattern::Runs { run_length: 1, unique_values: 1 }.is_wf());
    assert!(!DataPattern::Runs { run_length: 0, unique_values: 1 }.is_wf());
    assert!(!DataPattern::Periodic { period: 0, amplitude: 3 }.is_wf());
    assert!(!DataPattern::Sparse { density_ppm: 1_000_001 }.is_wf());
    assert!(DataPattern::Sparse { density_ppm: 1_000_000 }.is_wf());
    assert!(DataPattern::Random.is_wf());
}
