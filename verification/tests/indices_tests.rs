use lance_rle_benchmark::indices::{generate_indices, middle_index};

#[test]
fn one_percent_of_a_thousand_rows() {
    let idx = generate_indices(1000, 10_000);
    assert_eq!(idx.len(), 10);
    for k in 0..idx.len() {
        assert!(idx[k] < 1000);
        if k > 0 {
            assert!(idx[k - 1] < idx[k], "not strictly increasing at {}", k);
        }
    }
}

#[test]
fn count_bounds_and_order_across_parameters() {
    for (size, ratio_ppm) in [
        (0usize, 500_000u32),
        (10, 0),
        (100, 1_000_000),
        (57, 123_456),
        (1000, 250_000),
    ] {
        let idx = generate_indices(size, ratio_ppm);
        let expected = (size as u128 * ratio_ppm as u128 / 1_000_000) as usize;
        assert_eq!(idx.len(), expected, "count for size {} ratio {}", size, ratio_ppm);
        for k in 0..idx.len() {
            assert!(idx[k] < size);
            if k > 0 {
                assert!(idx[k - 1] < idx[k]);
            }
        }
    }
}

#[test]
fn sampling_is_deterministic() {
    let a = generate_indices(5000, 37_000);
    let b = generate_indices(5000, 37_000);
    assert_eq!(a, b);
}

#[test]
fn full_ratio_selects_every_row() {
    let idx = generate_indices(20, 1_000_000);
    let expected: Vec<usize> = (0..20).collect();
    assert_eq!(idx, expected);
}

#[test]
fn middle_index_is_half_the_size() {
    assert_eq!(middle_index(1000), 500);
    assert_eq!(middle_index(1), 0);
    assert_eq!(middle_index(7), 3);
}
