use lance_rle_benchmark::generate::{generate, generate_with};
use lance_rle_benchmark::pattern::DataPattern;
use lance_rle_benchmark::rng::SeededRng;

fn all_patterns() -> Vec<DataPattern> {
    vec![
        DataPattern::Runs { run_length: 8, unique_values: 4 },
        DataPattern::Periodic { period: 4, amplitude: 8 },
        DataPattern::Sparse { density_ppm: 300_000 },
        DataPattern::Monotonic { step: 3 },
        DataPattern::Random,
        DataPattern::HighRepetition { repetition_ppm: 700_000, run_length: 5 },
        DataPattern::LowRepetition { unique_ratio_ppm: 250_000 },
    ]
}

#[test]
fn monotonic_scenario() {
    let r = generate(&DataPattern::Monotonic { step: 5 }, 5);
    assert_eq!(r, vec![0, 5, 10, 15, 20]);
}

#[test]
fn sparse_zero_density_is_all_zeros() {
    let r = generate(&DataPattern::Sparse { density_ppm: 0 }, 100);
    assert_eq!(r.len(), 100);
    assert!(r.iter().all(|&v| v == 0));
}

#[test]
fn low_repetition_full_ratio_is_distinct() {
    for size in [0usize, 1, 2, 17, 100] {
        let r = generate(&DataPattern::LowRepetition { unique_ratio_ppm: 1_000_000 }, size);
        assert_eq!(r.len(), size);
        let expected: Vec<i64> = (0..size as i64).collect();
        assert_eq!(r, expected);
        let mut seen = r.clone();
        seen.sort_unstable();
        seen.dedup();
        assert_eq!(seen.len(), size);
    }
}

#[test]
fn low_repetition_half_ratio_repeats_values() {
    let r = generate(&DataPattern::LowRepetition { unique_ratio_ppm: 500_000 }, 100);
    assert_eq!(r.len(), 100);
    assert!(r.iter().all(|&v| 0 <= v && v < 50));
    let mut distinct = r.clone();
    distinct.sort_unstable();
    distinct.dedup();
    assert!(distinct.len() <= 50);
}

#[test]
fn every_pattern_hits_the_exact_length() {
    for p in all_patterns() {
        for size in [0usize, 1, 7, 100, 1000] {
            let r = generate(&p, size);
            assert_eq!(r.len(), size, "length mismatch for {:?}", p);
        }
    }
}

#[test]
fn generation_is_deterministic() {
    for p in all_patterns() {
        let a = generate(&p, 500);
        let b = generate(&p, 500);
        assert_eq!(a, b, "two runs differ for {:?}", p);
    }
}

#[test]
fn generate_uses_the_fixed_seed() {
    for p in all_patterns() {
        let a = generate(&p, 200);
        let mut rng = SeededRng::new(42);
        let b = generate_with(&p, 200, &mut rng);
        assert_eq!(a, b, "fixed-seed path differs for {:?}", p);
    }
}

#[test]
fn runs_values_stay_below_unique_values() {
    let r = generate(&DataPattern::Runs { run_length: 5, unique_values: 3 }, 400);
    assert!(r.iter().all(|&v| 0 <= v && v < 3));
}

#[test]
fn runs_with_unit_parameters_is_all_zeros() {
    let r = generate(&DataPattern::Runs { run_length: 1, unique_values: 1 }, 50);
    assert_eq!(r, vec![0; 50]);
}

#[test]
fn periodic_follows_the_sawtooth_formula() {
    let r = generate(&DataPattern::Periodic { period: 4, amplitude: 8 }, 10);
    assert_eq!(r, vec![0, 2, 4, 6, 0, 2, 4, 6, 0, 2]);
}

#[test]
fn high_repetition_values_fall_in_disjoint_ranges() {
    let r = generate(
        &DataPattern::HighRepetition { repetition_ppm: 500_000, run_length: 4 },
        500,
    );
    assert_eq!(r.len(), 500);
    for &v in &r {
        assert!((0 <= v && v < 1000) || (1_000_000 <= v), "value {} outside both ranges", v);
    }
    assert!(r.iter().any(|&v| v >= 1_000_000), "no high-range value appeared");
    assert!(r.iter().any(|&v| v < 1000), "no low-range value appeared");
}

#[test]
fn high_repetition_with_zero_run_length_still_fits() {
    let r = generate(
        &DataPattern::HighRepetition { repetition_ppm: 900_000, run_length: 0 },
        64,
    );
    assert_eq!(r.len(), 64);
}

#[test]
fn sparse_values_stay_small() {
    let r = generate(&DataPattern::Sparse { density_ppm: 800_000 }, 300);
    assert!(r.iter().all(|&v| 0 <= v && v < 100));
    assert!(r.iter().any(|&v| v != 0), "a dense sparse pattern never fired");
}
