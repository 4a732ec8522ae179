use bloomfilter::sizing::LN2_Q64;
use bloomfilter::Bloom;

#[test]
fn optimal_k_is_the_rounded_up_ratio_times_ln_2() {
    // 65536 / 1000 * ln 2 = 45.4...
    assert_eq!(Bloom::optimal_k_num(65536, 1000), 46);
    // 1000 / 100 * ln 2 = 6.93...
    assert_eq!(Bloom::optimal_k_num(1000, 100), 7);
    // 8 * ln 2 = 5.5...
    assert_eq!(Bloom::optimal_k_num(8, 1), 6);
    // 3 * ln 2 = 2.07...
    assert_eq!(Bloom::optimal_k_num(3, 1), 3);
    // 80 / 7 * ln 2 = 7.9...
    assert_eq!(Bloom::optimal_k_num(80, 7), 8);
}

#[test]
fn optimal_k_is_at_least_one() {
    assert_eq!(Bloom::optimal_k_num(80, 80), 1);
    assert_eq!(Bloom::optimal_k_num(128, 1000), 1);
    assert_eq!(Bloom::optimal_k_num(0, 5), 1);
    assert_eq!(Bloom::optimal_k_num(1, usize::MAX), 1);
    assert_eq!(Bloom::optimal_k_num(1, 1), 1);
    assert_eq!(Bloom::optimal_k_num(2, 1), 2);
}

#[test]
fn optimal_k_stops_at_the_largest_round_count() {
    assert_eq!(Bloom::optimal_k_num(1 << 40, 1), u32::MAX);
    assert_eq!(Bloom::optimal_k_num(u64::MAX, 1), u32::MAX);
    assert_eq!(Bloom::optimal_k_num(u64::MAX, 1 << 32), 2_977_044_472);
}

#[test]
fn ln_2_in_fixed_point() {
    assert_eq!(LN2_Q64, 12_786_308_645_202_655_659);
    let as_float = LN2_Q64 as f64 / 18_446_744_073_709_551_616.0;
    assert!((as_float - std::f64::consts::LN_2).abs() < 1e-15);
}
